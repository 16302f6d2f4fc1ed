//! How the program was asked to run.

use crate::error::Error;
use vstd::prelude::*;

verus! {

/// Whether to read statements from the user or to run a file.
#[derive(Debug)]
pub enum Mode {
    Repl,
    File(String),
}

pub ghost enum ModeView {
    Repl,
    File(Seq<char>),
}

impl View for Mode {
    type V = ModeView;

    open spec fn view(&self) -> ModeView {
        match self {
            Mode::Repl => ModeView::Repl,
            Mode::File(path) => ModeView::File(path@),
        }
    }
}

impl Clone for Mode {
    fn clone(&self) -> (r: Self)
        ensures
            r@ == self@,
    {
        match self {
            Mode::Repl => Mode::Repl,
            Mode::File(path) => Mode::File(path.clone()),
        }
    }
}

/// The settings of a run.
#[derive(Debug)]
pub struct Config {
    mode: Mode,
}

impl Clone for Config {
    fn clone(&self) -> (r: Self)
        ensures
            r.spec_mode() == self.spec_mode(),
    {
        Config { mode: self.mode.clone() }
    }
}

impl Config {
    pub closed spec fn spec_mode(&self) -> ModeView {
        self.mode@
    }

    /// The settings that the arguments of the program ask for. Without an
    /// argument after the name of the program statements are read from the
    /// user; else the first argument names the file to run, which must
    /// exist.
    pub fn build(args: &Vec<String>, file_exists: bool) -> (r: Result<Config, Error>)
        ensures
            match r {
                Ok(config) => if args.len() < 2 {
                    config.spec_mode() == ModeView::Repl
                } else {
                    file_exists && config.spec_mode() == ModeView::File(args@[1]@)
                },
                Err(err) => args.len() >= 2 && !file_exists && err == Error::FileNotFound,
            },
    {
        if args.len() < 2 {
            Ok(Config { mode: Mode::Repl })
        } else if file_exists {
            Ok(Config { mode: Mode::File(args[1].clone()) })
        } else {
            Err(Error::FileNotFound)
        }
    }

    pub fn mode(&self) -> (r: &Mode)
        ensures
            r@ == self.spec_mode(),
    {
        &self.mode
    }
}

} // verus!
