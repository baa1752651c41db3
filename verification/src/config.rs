//! The configuration of a run, and how an invocation becomes one.

use vstd::prelude::*;
use vstd::string::*;
use crate::error::{CatError, Failure};

verus! {

/// Which output lines receive a number.
#[derive(Debug, Clone, Copy, PartialEq, Eq, Structural)]
pub enum Numbering {
    /// No line is numbered.
    Off,
    /// Every line is numbered.
    All,
    /// Every line but the empty ones is numbered.
    NonBlank,
}

/// The name that stands for standard input.
pub open spec fn stdin_name() -> Seq<char> {
    "-"@
}

/// What a run is asked to do: the inputs, in order, and the numbering flags.
#[derive(Debug, PartialEq, Eq)]
pub struct Config {
    files: Vec<String>,
    number_lines: bool,
    number_nonblank_lines: bool,
}

/// The mathematical value of a [`Config`].
pub struct ConfigView {
    pub files: Seq<Seq<char>>,
    pub number_lines: bool,
    pub number_nonblank_lines: bool,
}

impl ConfigView {
    /// A configuration names at least one input and sets at most one of
    /// the numbering flags.
    pub open spec fn wf(self) -> bool {
        &&& self.files.len() > 0
        &&& !(self.number_lines && self.number_nonblank_lines)
    }

    /// The numbering that the flags ask for.
    pub open spec fn numbering(self) -> Numbering {
        if self.number_lines {
            Numbering::All
        } else if self.number_nonblank_lines {
            Numbering::NonBlank
        } else {
            Numbering::Off
        }
    }
}

impl View for Config {
    type V = ConfigView;

    closed spec fn view(&self) -> ConfigView {
        ConfigView {
            files: self.files.deep_view(),
            number_lines: self.number_lines,
            number_nonblank_lines: self.number_nonblank_lines,
        }
    }
}

/// What an invocation with these inputs and flags resolves to.
///
/// With both flags set it is refused. Otherwise it is a configuration with
/// the flags as given and the inputs as given, but that standard input is the
/// one input where none was named.
pub open spec fn resolved(
    files: Seq<Seq<char>>,
    number_lines: bool,
    number_nonblank_lines: bool,
) -> Result<ConfigView, Failure> {
    if number_lines && number_nonblank_lines {
        Err(Failure::Usage)
    } else {
        Ok(
            ConfigView {
                files: if files.len() == 0 {
                    seq![stdin_name()]
                } else {
                    files
                },
                number_lines,
                number_nonblank_lines,
            },
        )
    }
}

/// Makes the configuration of an invocation from the inputs named on the
/// command line and the two numbering flags.
///
/// The flags exclude each other: with both set the invocation is refused.
/// Without an input, standard input is read.
pub fn get_args(files: Vec<String>, number_lines: bool, number_nonblank_lines: bool) -> (r: Result<
    Config,
    CatError,
>)
    ensures
        match r {
            Ok(config) => resolved(files.deep_view(), number_lines, number_nonblank_lines) == Ok::<
                ConfigView,
                Failure,
            >(config@),
            Err(e) => resolved(files.deep_view(), number_lines, number_nonblank_lines) == Err::<
                ConfigView,
                Failure,
            >(e@),
        },
{
    if number_lines && number_nonblank_lines {
        return Err(CatError::Usage);
    }
    let mut files = files;
    let ghost given = files.deep_view();
    if files.len() == 0 {
        files.push(String::from_str("-"));
        assert(files.deep_view() =~= seq![stdin_name()]);
    }
    let config = Config { files, number_lines, number_nonblank_lines };
    assert(config@.files =~= resolved(given, number_lines, number_nonblank_lines)->Ok_0.files);
    Ok(config)
}

/// An invocation that sets both numbering flags is refused, whatever inputs
/// it names.
pub proof fn lemma_conflicting_flags_refused(files: Seq<Seq<char>>)
    ensures
        resolved(files, true, true) == Err::<ConfigView, Failure>(Failure::Usage),
{
}

/// An invocation that is not refused gives a configuration that names at
/// least one input and sets at most one flag.
pub proof fn lemma_resolved_wf(
    files: Seq<Seq<char>>,
    number_lines: bool,
    number_nonblank_lines: bool,
)
    ensures
        resolved(files, number_lines, number_nonblank_lines) matches Ok(config) ==> config.wf(),
        resolved(files, number_lines, number_nonblank_lines) is Ok <==> !(number_lines
            && number_nonblank_lines),
{
}

/// An invocation that names no input resolves as one that names standard
/// input alone.
pub proof fn lemma_no_input_is_stdin(number_lines: bool, number_nonblank_lines: bool)
    ensures
        resolved(Seq::empty(), number_lines, number_nonblank_lines) == resolved(
            seq![stdin_name()],
            number_lines,
            number_nonblank_lines,
        ),
{
}

impl Config {
    /// The inputs, in the order in which they are read.
    pub fn files(&self) -> (r: &Vec<String>)
        ensures
            r.deep_view() == self@.files,
    {
        &self.files
    }

    /// Whether every line is numbered.
    pub fn number_lines(&self) -> (r: bool)
        ensures
            r == self@.number_lines,
    {
        self.number_lines
    }

    /// Whether the lines that are not empty are numbered.
    pub fn number_nonblank_lines(&self) -> (r: bool)
        ensures
            r == self@.number_nonblank_lines,
    {
        self.number_nonblank_lines
    }

    /// The numbering that the flags ask for.
    pub fn numbering(&self) -> (r: Numbering)
        ensures
            r == self@.numbering(),
    {
        if self.number_lines {
            Numbering::All
        } else if self.number_nonblank_lines {
            Numbering::NonBlank
        } else {
            Numbering::Off
        }
    }
}

} // verus!
