//! The decisions of a run, one step at a time.
//!
//! A [`Session`] never opens, reads or prints. It says what is to be done
//! next ([`Session::request`]), is told what came of it, and hands back what
//! is to be written. Whoever drives it does the work.

use vstd::prelude::*;
use vstd::string::*;
use crate::config::{stdin_name, Config, ConfigView};
use crate::error::{CatError, Failure};
use crate::lines::{counter_after, emit_line, output_line};

verus! {

/// What the driver of a session does next.
#[derive(Debug, Clone, Copy, PartialEq, Eq, Structural)]
pub enum Request {
    /// Take standard input as the current input.
    OpenStdin,
    /// Open the file that [`Session::current_file`] names.
    OpenFile,
    /// Read the next line of the current input.
    ReadLine,
    /// The run is over: [`Session::outcome`] says how it ended.
    Stop,
}

/// The state of a run: which input is current, whether it is open, and the
/// line counter.
#[derive(Debug)]
pub struct Session {
    config: Config,
    index: usize,
    reading: bool,
    counter: u64,
    failure: Option<String>,
}

/// The mathematical value of a [`Session`].
pub struct SessionView {
    /// The configuration of the run.
    pub config: ConfigView,
    /// How many inputs the run is done with.
    pub index: nat,
    /// Whether the current input is open.
    pub reading: bool,
    /// How many lines of the current input have received a number.
    pub counter: nat,
    /// The cause of the read failure that ended the run, if one did.
    pub failure: Option<Seq<char>>,
}

impl SessionView {
    /// The state in which a run with `config` starts.
    pub open spec fn start(config: ConfigView) -> SessionView {
        SessionView { config, index: 0, reading: false, counter: 0, failure: None }
    }

    /// What holds of every state that a run reaches.
    pub open spec fn wf(self) -> bool {
        &&& self.index <= self.config.files.len()
        &&& self.reading ==> self.index < self.config.files.len() && self.failure is None
        &&& !self.reading ==> self.counter == 0
    }

    /// Whether the run is over.
    pub open spec fn stopped(self) -> bool {
        self.failure is Some || (!self.reading && self.index >= self.config.files.len())
    }

    /// Whether the next step is to open the current input.
    pub open spec fn opening(self) -> bool {
        !self.stopped() && !self.reading
    }

    /// Whether the next step is to read a line of the current input.
    pub open spec fn in_input(self) -> bool {
        !self.stopped() && self.reading
    }

    /// The name of the current input.
    pub open spec fn current(self) -> Seq<char>
        recommends
            self.index < self.config.files.len(),
    {
        self.config.files[self.index as int]
    }

    /// What the driver does next.
    pub open spec fn request(self) -> Request {
        if self.stopped() {
            Request::Stop
        } else if self.reading {
            Request::ReadLine
        } else if self.current() == stdin_name() {
            Request::OpenStdin
        } else {
            Request::OpenFile
        }
    }

    /// The state after the current input was opened: its counter is zero.
    pub open spec fn opened(self) -> SessionView {
        SessionView { reading: true, counter: 0, ..self }
    }

    /// The state after the current input could not be opened: the run is
    /// done with it.
    pub open spec fn open_failed(self) -> SessionView {
        SessionView { index: self.index + 1, ..self }
    }

    /// The state after `text` was read from the current input.
    pub open spec fn line(self, text: Seq<char>) -> SessionView {
        SessionView {
            counter: counter_after(self.config.numbering(), self.counter, text),
            ..self
        }
    }

    /// The state after the current input ended: the run is done with it, and
    /// its counter is gone.
    pub open spec fn end_of_input(self) -> SessionView {
        SessionView { index: self.index + 1, reading: false, counter: 0, ..self }
    }

    /// The state after reading from the current input failed: the run is
    /// over.
    pub open spec fn read_failed(self, cause: Seq<char>) -> SessionView {
        SessionView { reading: false, counter: 0, failure: Some(cause), ..self }
    }

    /// How the run ended, or would end if no more were read.
    pub open spec fn outcome(self) -> Result<(), Failure> {
        match self.failure {
            Some(cause) => Err(Failure::Read { cause }),
            None => Ok(()),
        }
    }
}

impl View for Session {
    type V = SessionView;

    closed spec fn view(&self) -> SessionView {
        SessionView {
            config: self.config@,
            index: self.index as nat,
            reading: self.reading,
            counter: self.counter as nat,
            failure: self.failure.deep_view(),
        }
    }
}

impl Session {
    /// Starts a run with `config`: no input is open yet.
    pub fn new(config: Config) -> (r: Session)
        ensures
            r@ == SessionView::start(config@),
            r@.wf(),
    {
        Session { config, index: 0, reading: false, counter: 0, failure: None }
    }

    /// What the driver does next.
    pub fn request(&self) -> (r: Request)
        requires
            self@.wf(),
        ensures
            r == self@.request(),
    {
        if self.failure.is_some() {
            return Request::Stop;
        }
        if self.reading {
            return Request::ReadLine;
        }
        let files = self.config.files();
        if self.index >= files.len() {
            return Request::Stop;
        }
        let dash = String::from_str("-");
        if files[self.index] == dash {
            Request::OpenStdin
        } else {
            Request::OpenFile
        }
    }

    /// The name of the input that is to be opened.
    pub fn current_file(&self) -> (r: &str)
        requires
            self@.wf(),
            self@.opening(),
        ensures
            r@ == self@.current(),
    {
        self.config.files()[self.index].as_str()
    }

    /// How many lines of the current input have received a number.
    pub fn counter(&self) -> (r: u64)
        ensures
            r as nat == self@.counter,
    {
        self.counter
    }

    /// The current input was opened.
    pub fn opened(&mut self)
        requires
            old(self)@.wf(),
            old(self)@.opening(),
        ensures
            final(self)@ == old(self)@.opened(),
            final(self)@.wf(),
    {
        self.reading = true;
        self.counter = 0;
    }

    /// The current input could not be opened, for `cause`. Returns the
    /// error, whose message is the line that goes to standard error; the run
    /// goes on with the next input.
    pub fn open_failed(&mut self, cause: String) -> (e: CatError)
        requires
            old(self)@.wf(),
            old(self)@.opening(),
        ensures
            e@ == (Failure::Open { filename: old(self)@.current(), cause: cause@ }),
            final(self)@ == old(self)@.open_failed(),
            final(self)@.wf(),
    {
        let files = self.config.files();
        let inputs: usize = files.len();
        assert(self.index < inputs);
        let filename = files[self.index].clone();
        self.index = self.index + 1;
        CatError::Open { filename, cause }
    }

    /// The line `text` was read from the current input. Returns the line
    /// that goes to standard output.
    pub fn line(&mut self, text: &str) -> (out: String)
        requires
            old(self)@.wf(),
            old(self)@.in_input(),
            old(self)@.counter < u64::MAX,
        ensures
            out@ == output_line(old(self)@.config.numbering(), old(self)@.counter, text@),
            final(self)@ == old(self)@.line(text@),
            final(self)@.wf(),
    {
        let mode = self.config.numbering();
        emit_line(mode, &mut self.counter, text)
    }

    /// The current input has no more lines.
    pub fn end_of_input(&mut self)
        requires
            old(self)@.wf(),
            old(self)@.in_input(),
        ensures
            final(self)@ == old(self)@.end_of_input(),
            final(self)@.wf(),
    {
        let inputs: usize = self.config.files().len();
        assert(self.index < inputs);
        self.index = self.index + 1;
        self.reading = false;
        self.counter = 0;
    }

    /// Reading from the current input failed, for `cause`. The run is over.
    pub fn read_failed(&mut self, cause: String)
        requires
            old(self)@.wf(),
            old(self)@.in_input(),
        ensures
            final(self)@ == old(self)@.read_failed(cause@),
            final(self)@.wf(),
    {
        self.reading = false;
        self.counter = 0;
        self.failure = Some(cause);
    }

    /// How the run ended.
    pub fn outcome(&self) -> (r: Result<(), CatError>)
        ensures
            match r {
                Ok(()) => self@.outcome() == Ok::<(), Failure>(()),
                Err(e) => self@.outcome() == Err::<(), Failure>(e@),
            },
    {
        match &self.failure {
            Some(cause) => Err(CatError::Read { cause: cause.clone() }),
            None => Ok(()),
        }
    }
}

} // verus!
