//! A whole run, on inputs that are given as values.
//!
//! [`run`] drives a [`Session`] over what opening and reading each input
//! gave, and collects what goes to standard output and to standard error.

use vstd::prelude::*;
use crate::config::{Config, ConfigView, Numbering};
use crate::error::{open_text, CatError, Failure};
use crate::lines::{lemma_render_push, numbered_count, render};
use crate::session::{Session, SessionView};

verus! {

/// What opening and reading one input gave.
#[derive(Debug, PartialEq, Eq)]
pub enum Source {
    /// The input could not be opened, for `cause`.
    Unopenable { cause: String },
    /// The input was opened and gave `lines`. If `failure` holds a cause,
    /// reading failed after them.
    Readable { lines: Vec<String>, failure: Option<String> },
}

/// The mathematical value of a [`Source`].
pub enum SourceView {
    Unopenable { cause: Seq<char> },
    Readable { lines: Seq<Seq<char>>, failure: Option<Seq<char>> },
}

impl View for Source {
    type V = SourceView;

    open spec fn view(&self) -> SourceView {
        match self {
            Source::Unopenable { cause } => SourceView::Unopenable { cause: cause@ },
            Source::Readable { lines, failure } => SourceView::Readable {
                lines: lines.deep_view(),
                failure: failure.deep_view(),
            },
        }
    }
}

impl DeepView for Source {
    type V = SourceView;

    open spec fn deep_view(&self) -> SourceView {
        self@
    }
}

impl SourceView {
    /// Whether reading this input fails, which ends the run.
    pub open spec fn aborts(self) -> bool {
        self matches SourceView::Readable { failure: Some(_), .. }
    }

    /// What this input puts on standard output: its lines, rendered with a
    /// counter of its own.
    pub open spec fn stdout(self, mode: Numbering) -> Seq<Seq<char>> {
        match self {
            SourceView::Unopenable { .. } => Seq::empty(),
            SourceView::Readable { lines, .. } => render(mode, lines),
        }
    }

    /// What this input, named `name`, puts on standard error: one line if
    /// it could not be opened.
    pub open spec fn stderr(self, name: Seq<char>) -> Seq<Seq<char>> {
        match self {
            SourceView::Unopenable { cause } => seq![open_text(name, cause)],
            SourceView::Readable { .. } => Seq::empty(),
        }
    }
}

/// What `sources` put on standard output, one after the other.
pub open spec fn stdout_of(mode: Numbering, sources: Seq<SourceView>) -> Seq<Seq<char>>
    decreases sources.len(),
{
    if sources.len() == 0 {
        Seq::empty()
    } else {
        stdout_of(mode, sources.drop_last()) + sources.last().stdout(mode)
    }
}

/// What `sources` put on standard error, one after the other, where
/// `names[i]` is the name of `sources[i]`.
pub open spec fn stderr_of(names: Seq<Seq<char>>, sources: Seq<SourceView>) -> Seq<Seq<char>>
    recommends
        sources.len() <= names.len(),
    decreases sources.len(),
{
    if sources.len() == 0 {
        Seq::empty()
    } else {
        stderr_of(names, sources.drop_last()) + sources.last().stderr(names[sources.len() - 1])
    }
}

/// How many of `sources` a run touches: all of them up to the first whose
/// reading fails, that one included.
pub open spec fn reached(sources: Seq<SourceView>) -> nat
    decreases sources.len(),
{
    if sources.len() == 0 {
        0
    } else if sources.first().aborts() {
        1
    } else {
        1 + reached(sources.drop_first())
    }
}

/// What a run leaves behind.
#[derive(Debug, PartialEq, Eq)]
pub struct Transcript {
    /// The lines written to standard output, in order.
    pub stdout: Vec<String>,
    /// The lines written to standard error, in order.
    pub stderr: Vec<String>,
    /// Whether the run came to its end or was ended by a read failure.
    pub outcome: Result<(), CatError>,
}

/// The mathematical value of a [`Transcript`].
pub struct TranscriptView {
    pub stdout: Seq<Seq<char>>,
    pub stderr: Seq<Seq<char>>,
    pub outcome: Result<(), Failure>,
}

impl View for Transcript {
    type V = TranscriptView;

    open spec fn view(&self) -> TranscriptView {
        TranscriptView {
            stdout: self.stdout.deep_view(),
            stderr: self.stderr.deep_view(),
            outcome: match self.outcome {
                Ok(()) => Ok(()),
                Err(e) => Err(e@),
            },
        }
    }
}

/// How a run over `touched`, the inputs it reached, ends: with the read
/// failure of the last of them, if that one has one.
pub open spec fn outcome_of(touched: Seq<SourceView>) -> Result<(), Failure> {
    if touched.len() > 0 && touched.last().aborts() {
        Err(Failure::Read { cause: touched.last()->failure->Some_0 })
    } else {
        Ok(())
    }
}

/// What a run with `config` leaves behind when `sources[i]` is what its
/// input `i` gave.
pub open spec fn transcript(config: ConfigView, sources: Seq<SourceView>) -> TranscriptView
    recommends
        sources.len() == config.files.len(),
{
    let touched = sources.take(reached(sources) as int);
    TranscriptView {
        stdout: stdout_of(config.numbering(), touched),
        stderr: stderr_of(config.files, touched),
        outcome: outcome_of(touched),
    }
}

/// `reached` is the place of the first input whose reading fails, counted
/// from one, or the number of inputs if there is none.
pub proof fn lemma_reached(sources: Seq<SourceView>, k: int)
    requires
        0 <= k <= sources.len(),
        forall|j: int| 0 <= j < k ==> !(#[trigger] sources[j]).aborts(),
    ensures
        k == sources.len() ==> reached(sources) == k,
        k < sources.len() && sources[k].aborts() ==> reached(sources) == k + 1,
        reached(sources) <= sources.len(),
    decreases sources.len(),
{
    if sources.len() > 0 {
        let rest = sources.drop_first();
        if k > 0 {
            assert(!sources[0].aborts());
            assert forall|j: int| 0 <= j < k - 1 implies !(#[trigger] rest[j]).aborts() by {
                assert(rest[j] == sources[j + 1]);
            }
            lemma_reached(rest, k - 1);
        } else {
            lemma_reached(rest, 0);
        }
    }
}

/// Runs with `config` over `inputs`, where `inputs[i]` is what opening and
/// reading the input that `config` names at place `i` gave.
///
/// The inputs are taken in order. One that cannot be opened puts one line
/// on standard error and nothing else. One that opens puts its lines on
/// standard output, numbered from one as the configuration asks. A read
/// failure ends the run at once: the lines read before it stay, and no later
/// input is touched.
pub fn run(config: Config, inputs: &Vec<Source>) -> (r: Transcript)
    requires
        inputs.len() == config@.files.len(),
    ensures
        r@ == transcript(config@, inputs.deep_view()),
{
    let ghost conf = config@;
    let ghost mode = conf.numbering();
    let ghost sources = inputs.deep_view();
    let mut session = Session::new(config);
    let mut stdout: Vec<String> = Vec::new();
    let mut stderr: Vec<String> = Vec::new();
    let mut i: usize = 0;
    assert(sources.take(0) =~= Seq::<SourceView>::empty());
    assert(stdout.deep_view() =~= stdout_of(mode, sources.take(0)));
    assert(stderr.deep_view() =~= stderr_of(conf.files, sources.take(0)));
    while i < inputs.len()
        invariant
            i <= inputs.len(),
            conf == config@,
            inputs.len() == conf.files.len(),
            sources == inputs.deep_view(),
            mode == conf.numbering(),
            session@ == (SessionView { index: i as nat, ..SessionView::start(conf) }),
            forall|j: int| 0 <= j < i ==> !(#[trigger] sources[j]).aborts(),
            stdout.deep_view() == stdout_of(mode, sources.take(i as int)),
            stderr.deep_view() == stderr_of(conf.files, sources.take(i as int)),
        decreases inputs.len() - i,
    {
        let ghost before = sources.take(i as int);
        let ghost upto = sources.take(i + 1);
        assert(upto.drop_last() =~= before);
        assert(upto.last() == sources[i as int]);
        assert(sources[i as int] == inputs[i as int]@);
        match &inputs[i] {
            Source::Unopenable { cause } => {
                let ghost old_err = stderr.deep_view();
                let report = session.open_failed(cause.clone()).message();
                stderr.push(report);
                assert(stderr.deep_view() =~= old_err.push(report@));
                assert(stderr.deep_view() =~= stderr_of(conf.files, upto));
                assert(stdout.deep_view() =~= stdout_of(mode, upto));
            },
            Source::Readable { lines, failure } => {
                let ghost texts = lines.deep_view();
                let ghost base = stdout.deep_view();
                session.opened();
                let mut k: usize = 0;
                assert(texts.take(0) =~= Seq::<Seq<char>>::empty());
                assert(stdout.deep_view() =~= base + render(mode, texts.take(0)));
                while k < lines.len()
                    invariant
                        k <= lines.len(),
                        i < inputs.len(),
                        inputs.len() == conf.files.len(),
                        texts == lines.deep_view(),
                        mode == conf.numbering(),
                        session@ == (SessionView {
                            index: i as nat,
                            reading: true,
                            counter: numbered_count(mode, texts.take(k as int)),
                            ..SessionView::start(conf)
                        }),
                        session@.counter <= k,
                        stdout.deep_view() == base + render(mode, texts.take(k as int)),
                    decreases lines.len() - k,
                {
                    let ghost old_out = stdout.deep_view();
                    let ghost seen = texts.take(k as int);
                    let out = session.line(lines[k].as_str());
                    stdout.push(out);
                    proof {
                        assert(texts[k as int] == lines[k as int]@);
                        assert(texts.take(k + 1) =~= seen.push(texts[k as int]));
                        lemma_render_push(mode, seen, texts[k as int]);
                        assert(stdout.deep_view() =~= old_out.push(out@));
                        assert(stdout.deep_view() =~= base + render(mode, texts.take(k + 1)));
                    }
                    k = k + 1;
                }
                assert(texts.take(k as int) =~= texts);
                assert(stdout.deep_view() =~= stdout_of(mode, upto));
                assert(stderr.deep_view() =~= stderr_of(conf.files, upto));
                match failure {
                    Some(cause) => {
                        session.read_failed(cause.clone());
                        proof {
                            lemma_reached(sources, i as int);
                        }
                        return Transcript { stdout, stderr, outcome: session.outcome() };
                    },
                    None => {
                        session.end_of_input();
                    },
                }
            },
        }
        i = i + 1;
    }
    proof {
        lemma_reached(sources, i as int);
        assert(sources.take(i as int) =~= sources);
    }
    Transcript { stdout, stderr, outcome: session.outcome() }
}

/// The output of inputs taken one after the other is the output of the
/// first ones followed by that of the rest: no input changes what another
/// one gives.
pub proof fn lemma_stdout_of_concat(mode: Numbering, a: Seq<SourceView>, b: Seq<SourceView>)
    ensures
        stdout_of(mode, a + b) == stdout_of(mode, a) + stdout_of(mode, b),
    decreases b.len(),
{
    if b.len() == 0 {
        assert(a + b =~= a);
        assert(stdout_of(mode, a) + stdout_of(mode, b) =~= stdout_of(mode, a));
    } else {
        assert((a + b).drop_last() =~= a + b.drop_last());
        lemma_stdout_of_concat(mode, a, b.drop_last());
        assert(stdout_of(mode, a + b) =~= stdout_of(mode, a) + stdout_of(mode, b));
    }
}

/// A run over one input that opens and reads to its end puts that input's
/// rendered lines on standard output, nothing on standard error, and ends
/// well.
pub proof fn lemma_single_input(config: ConfigView, lines: Seq<Seq<char>>)
    requires
        config.files.len() == 1,
    ensures
        transcript(config, seq![SourceView::Readable { lines, failure: None }]) == (TranscriptView {
            stdout: render(config.numbering(), lines),
            stderr: Seq::empty(),
            outcome: Ok(()),
        }),
{
    let sources = seq![SourceView::Readable { lines, failure: None }];
    lemma_reached(sources, 1);
    assert(sources.take(1) =~= sources);
    assert(sources.drop_last() =~= Seq::<SourceView>::empty());
    reveal_with_fuel(stdout_of, 2);
    reveal_with_fuel(stderr_of, 2);
    assert(stdout_of(config.numbering(), sources) =~= render(config.numbering(), lines));
    assert(stderr_of(config.files, sources) =~= Seq::<Seq<char>>::empty());
}

/// The lines on standard error of inputs of which only the one at place
/// `k` could not be opened: its report, once it is among them.
proof fn lemma_stderr_of_one_unopenable(
    names: Seq<Seq<char>>,
    sources: Seq<SourceView>,
    k: int,
    n: int,
)
    requires
        0 <= k < sources.len(),
        0 <= n <= sources.len(),
        sources[k] is Unopenable,
        forall|i: int| 0 <= i < sources.len() && i != k ==> (#[trigger] sources[i]) is Readable,
    ensures
        stderr_of(names, sources.take(n)) == if n > k {
            seq![open_text(names[k], sources[k]->Unopenable_cause)]
        } else {
            Seq::<Seq<char>>::empty()
        },
    decreases n,
{
    if n > 0 {
        let upto = sources.take(n);
        assert(upto.drop_last() =~= sources.take(n - 1));
        assert(upto.last() == sources[n - 1]);
        lemma_stderr_of_one_unopenable(names, sources, k, n - 1);
        if n - 1 == k {
            assert(stderr_of(names, upto) =~= seq![
                open_text(names[k], sources[k]->Unopenable_cause),
            ]);
        } else {
            assert(stderr_of(names, upto) =~= stderr_of(names, sources.take(n - 1)));
        }
    }
}

/// One input that cannot be opened, among inputs that open and read to
/// their end, costs the run nothing but its own lines: the run ends well,
/// standard error holds the one report of that input, and standard output
/// holds what the other inputs give, whole and in order, as if the bad one
/// had not been named.
pub proof fn lemma_unopenable_input_is_isolated(
    config: ConfigView,
    sources: Seq<SourceView>,
    k: int,
)
    requires
        sources.len() == config.files.len(),
        0 <= k < sources.len(),
        sources[k] is Unopenable,
        forall|i: int|
            0 <= i < sources.len() && i != k ==> (#[trigger] sources[i]) is Readable
                && !sources[i].aborts(),
    ensures
        transcript(config, sources).outcome == Ok::<(), Failure>(()),
        transcript(config, sources).stderr == seq![
            open_text(config.files[k], sources[k]->Unopenable_cause),
        ],
        transcript(config, sources).stdout == stdout_of(config.numbering(), sources.remove(k)),
        transcript(config, sources).stdout == transcript(
            ConfigView { files: config.files.remove(k), ..config },
            sources.remove(k),
        ).stdout,
{
    let mode = config.numbering();
    let others = sources.remove(k);
    lemma_reached(sources, sources.len() as int);
    assert(sources.take(sources.len() as int) =~= sources);
    lemma_stderr_of_one_unopenable(config.files, sources, k, sources.len() as int);
    let head = sources.take(k);
    let tail = sources.skip(k + 1);
    let bad = seq![sources[k]];
    assert(sources =~= head + bad + tail);
    assert(others =~= head + tail);
    lemma_stdout_of_concat(mode, head + bad, tail);
    lemma_stdout_of_concat(mode, head, bad);
    lemma_stdout_of_concat(mode, head, tail);
    assert(bad.drop_last() =~= Seq::<SourceView>::empty());
    reveal_with_fuel(stdout_of, 2);
    assert(stdout_of(mode, bad) =~= Seq::<Seq<char>>::empty());
    assert(stdout_of(mode, sources) =~= stdout_of(mode, others));
    assert forall|j: int| 0 <= j < others.len() implies !(#[trigger] others[j]).aborts() by {
        if j < k {
            assert(others[j] == sources[j]);
        } else {
            assert(others[j] == sources[j + 1]);
        }
    }
    lemma_reached(others, others.len() as int);
    assert(others.take(others.len() as int) =~= others);
}

/// A read failure ends the run at its input: what the inputs after it would
/// have given is on neither stream, whatever they are.
pub proof fn lemma_nothing_after_read_failure(
    config: ConfigView,
    sources: Seq<SourceView>,
    k: int,
)
    requires
        sources.len() == config.files.len(),
        0 <= k < sources.len(),
        sources[k].aborts(),
        forall|j: int| 0 <= j < k ==> !(#[trigger] sources[j]).aborts(),
    ensures
        transcript(config, sources).outcome == Err::<(), Failure>(
            Failure::Read { cause: sources[k]->failure->Some_0 },
        ),
        transcript(config, sources).stdout == stdout_of(config.numbering(), sources.take(k + 1)),
        transcript(config, sources).stderr == stderr_of(config.files, sources.take(k + 1)),
{
    lemma_reached(sources, k);
}

} // verus!
