//! What the lines of one input become on standard output.
//!
//! Each input has a counter of its own, which starts at zero and goes up by
//! one for every line that receives a number.

use vstd::prelude::*;
use vstd::string::*;
use crate::config::Numbering;
use crate::number::{numbered, numbered_line};

verus! {

/// Whether `line` receives a number under `mode`.
pub open spec fn receives_number(mode: Numbering, line: Seq<char>) -> bool {
    match mode {
        Numbering::Off => false,
        Numbering::All => true,
        Numbering::NonBlank => line.len() > 0,
    }
}

/// How many of `lines` receive a number under `mode`.
pub open spec fn numbered_count(mode: Numbering, lines: Seq<Seq<char>>) -> nat
    decreases lines.len(),
{
    if lines.len() == 0 {
        0
    } else {
        let before = numbered_count(mode, lines.drop_last());
        if receives_number(mode, lines.last()) {
            before + 1
        } else {
            before
        }
    }
}

/// The output form of `line` when `counter` lines of its input have
/// received a number before it.
pub open spec fn output_line(mode: Numbering, counter: nat, line: Seq<char>) -> Seq<char> {
    if receives_number(mode, line) {
        numbered(counter + 1, line)
    } else {
        line
    }
}

/// The counter after `line`, when it was `counter` before it.
pub open spec fn counter_after(mode: Numbering, counter: nat, line: Seq<char>) -> nat {
    if receives_number(mode, line) {
        counter + 1
    } else {
        counter
    }
}

/// The output of a whole input: line `i` in the form that the number of
/// numbered lines before it gives.
pub open spec fn render(mode: Numbering, lines: Seq<Seq<char>>) -> Seq<Seq<char>> {
    Seq::new(
        lines.len(),
        |i: int| output_line(mode, numbered_count(mode, lines.take(i)), lines[i]),
    )
}

/// Whether `line` receives a number under `mode`.
pub fn is_numbered(mode: Numbering, line: &str) -> (r: bool)
    ensures
        r == receives_number(mode, line@),
{
    match mode {
        Numbering::Off => false,
        Numbering::All => true,
        Numbering::NonBlank => !line.is_empty(),
    }
}

/// Gives the output form of one line and moves the counter on.
pub fn emit_line(mode: Numbering, counter: &mut u64, line: &str) -> (r: String)
    requires
        *old(counter) < u64::MAX,
    ensures
        r@ == output_line(mode, *old(counter) as nat, line@),
        *final(counter) as nat == counter_after(mode, *old(counter) as nat, line@),
{
    if is_numbered(mode, line) {
        *counter = *counter + 1;
        numbered_line(*counter, line)
    } else {
        String::from_str(line)
    }
}

/// Extending an input by one line extends its output by that line's form
/// and leaves the output of the lines before it as it was.
pub proof fn lemma_render_push(mode: Numbering, lines: Seq<Seq<char>>, line: Seq<char>)
    ensures
        render(mode, lines.push(line)) == render(mode, lines).push(
            output_line(mode, numbered_count(mode, lines), line),
        ),
        numbered_count(mode, lines.push(line)) == counter_after(
            mode,
            numbered_count(mode, lines),
            line,
        ),
{
    let longer = lines.push(line);
    assert(longer.drop_last() =~= lines);
    assert(longer.take(lines.len() as int) =~= lines);
    assert forall|i: int| 0 <= i < lines.len() implies #[trigger] longer.take(i) == lines.take(
        i,
    ) by {
        assert(longer.take(i) =~= lines.take(i));
    }
    assert(render(mode, longer) =~= render(mode, lines).push(
        output_line(mode, numbered_count(mode, lines), line),
    ));
}

/// The number that line `i` of `lines` carries, if it receives one: one more
/// than the count of numbered lines before it.
pub open spec fn number_at(mode: Numbering, lines: Seq<Seq<char>>, i: int) -> nat
    recommends
        0 <= i < lines.len(),
{
    numbered_count(mode, lines.take(i)) + 1
}

/// The output has one line for each line of the input.
pub proof fn lemma_render_len(mode: Numbering, lines: Seq<Seq<char>>)
    ensures
        render(mode, lines).len() == lines.len(),
{
}

/// Without numbering, the output is the input, line for line.
pub proof fn lemma_plain_is_verbatim(lines: Seq<Seq<char>>)
    ensures
        render(Numbering::Off, lines) == lines,
{
    assert(render(Numbering::Off, lines) =~= lines);
}

/// When all lines are numbered, each of them receives a number.
pub proof fn lemma_all_count(lines: Seq<Seq<char>>)
    ensures
        numbered_count(Numbering::All, lines) == lines.len(),
    decreases lines.len(),
{
    if lines.len() > 0 {
        lemma_all_count(lines.drop_last());
    }
}

/// When all lines are numbered, line `i` (counted from zero) is the number
/// `i + 1` in its field, a tab, and the line's text, be the line empty or not.
pub proof fn lemma_all_numbered(lines: Seq<Seq<char>>)
    ensures
        render(Numbering::All, lines).len() == lines.len(),
        forall|i: int|
            0 <= i < lines.len() ==> #[trigger] render(Numbering::All, lines)[i] == numbered(
                (i + 1) as nat,
                lines[i],
            ),
{
    assert forall|i: int| 0 <= i < lines.len() implies #[trigger] render(Numbering::All, lines)[i]
        == numbered((i + 1) as nat, lines[i]) by {
        lemma_all_count(lines.take(i));
    }
}

/// When the lines that are not empty are numbered, an empty line gives an
/// empty output line, and a line that is not empty gives its number, a tab
/// and its text.
pub proof fn lemma_nonblank_numbered(lines: Seq<Seq<char>>)
    ensures
        render(Numbering::NonBlank, lines).len() == lines.len(),
        forall|i: int|
            0 <= i < lines.len() && lines[i].len() == 0 ==> #[trigger] render(
                Numbering::NonBlank,
                lines,
            )[i] == Seq::<char>::empty(),
        forall|i: int|
            0 <= i < lines.len() && lines[i].len() > 0 ==> #[trigger] render(
                Numbering::NonBlank,
                lines,
            )[i] == numbered(number_at(Numbering::NonBlank, lines, i), lines[i]),
{
    assert forall|i: int| 0 <= i < lines.len() && lines[i].len() == 0 implies #[trigger] render(
        Numbering::NonBlank,
        lines,
    )[i] == Seq::<char>::empty() by {
        assert(lines[i] =~= Seq::<char>::empty());
    }
}

/// The counter after line `i` is the counter before it, and one more if the
/// line receives a number: a line without a number uses none up.
pub proof fn lemma_count_step(mode: Numbering, lines: Seq<Seq<char>>, i: int)
    requires
        0 <= i < lines.len(),
    ensures
        numbered_count(mode, lines.take(i + 1)) == counter_after(
            mode,
            numbered_count(mode, lines.take(i)),
            lines[i],
        ),
{
    assert(lines.take(i + 1) =~= lines.take(i).push(lines[i]));
    lemma_render_push(mode, lines.take(i), lines[i]);
}

/// The counter never goes down within an input.
pub proof fn lemma_count_monotone(mode: Numbering, lines: Seq<Seq<char>>, i: int, j: int)
    requires
        0 <= i <= j <= lines.len(),
    ensures
        numbered_count(mode, lines.take(i)) <= numbered_count(mode, lines.take(j)),
    decreases j - i,
{
    if i < j {
        lemma_count_monotone(mode, lines, i, j - 1);
        lemma_count_step(mode, lines, j - 1);
    }
}

/// Of two lines that receive a number, the later one carries the greater.
pub proof fn lemma_numbers_increase(mode: Numbering, lines: Seq<Seq<char>>, i: int, j: int)
    requires
        0 <= i < j < lines.len(),
        receives_number(mode, lines[i]),
    ensures
        number_at(mode, lines, i) < number_at(mode, lines, j),
{
    lemma_count_step(mode, lines, i);
    lemma_count_monotone(mode, lines, i + 1, j);
}

/// The numbers of an input have no gap: each number from one up to the
/// count of its numbered lines is carried by one of them.
pub proof fn lemma_numbers_gapless(mode: Numbering, lines: Seq<Seq<char>>, m: nat)
    requires
        1 <= m <= numbered_count(mode, lines),
    ensures
        exists|i: int|
            0 <= i < lines.len() && receives_number(mode, lines[i]) && #[trigger] number_at(
                mode,
                lines,
                i,
            ) == m,
    decreases lines.len(),
{
    let last = lines.len() - 1;
    let before = lines.drop_last();
    assert(lines.take(last) =~= before);
    if receives_number(mode, lines.last()) && m == numbered_count(mode, lines) {
        assert(number_at(mode, lines, last) == m);
    } else {
        lemma_numbers_gapless(mode, before, m);
        let i = choose|i: int|
            0 <= i < before.len() && receives_number(mode, before[i]) && #[trigger] number_at(
                mode,
                before,
                i,
            ) == m;
        assert(before.take(i) =~= lines.take(i));
        assert(number_at(mode, lines, i) == m);
    }
}

} // verus!
