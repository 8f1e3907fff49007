//! How the terminal interface is started, and why it ends.

use vstd::prelude::*;

use crate::clock::Span;
use crate::slurm::SlurmError;
use crate::theme::ThemeName;

verus! {

/// Why the terminal interface ends.
#[derive(Debug)]
pub enum TuiError {
    /// The terminal failed; the text says how.
    Io(String),
    /// The backend failed.
    Slurm(SlurmError),
}

impl TuiError {
    /// The error in words.
    pub open spec fn words(self) -> Seq<char> {
        match self {
            TuiError::Io(text) => "terminal IO error: "@ + text@,
            TuiError::Slurm(error) => "slurm backend error: "@ + error.words(),
        }
    }

    /// The error in words.
    pub fn message(&self) -> (r: String)
        requires
            self matches TuiError::Slurm(error) ==> error.wf(),
        ensures
            r@ == self.words(),
    {
        match self {
            TuiError::Io(text) => {
                let mut out = "terminal IO error: ".to_string();
                out.append(text.as_str());
                out
            },
            TuiError::Slurm(error) => {
                let mut out = "slurm backend error: ".to_string();
                out.append(error.message().as_str());
                out
            },
        }
    }
}

/// How the terminal interface is started.
#[derive(Debug, Clone, Copy, PartialEq, Eq, Structural)]
pub struct TuiOptions {
    /// How long it waits for a key before it draws again.
    pub tick_rate: Span,
    pub theme: ThemeName,
}

impl Default for TuiOptions {
    fn default() -> (r: Self)
        ensures
            r.tick_rate == (Span { secs: 0, nanos: 80_000_000 }),
            r.theme == ThemeName::Catppuccin,
    {
        TuiOptions { tick_rate: Span { secs: 0, nanos: 80_000_000 }, theme: ThemeName::Catppuccin }
    }
}

} // verus!
