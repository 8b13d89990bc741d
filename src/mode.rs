//! Which of the three ways of running applies.

use vstd::prelude::*;

verus! {

/// How words reach the translator.
#[derive(Debug)]
pub enum Mode {
    /// Words given as arguments, translated together.
    Batch(Vec<String>),
    /// Words asked for one at a time until an empty one.
    Interact,
    /// All of standard input, as one text.
    FromStdin,
}

impl Mode {
    /// Piped input wins; otherwise words on the command line make a batch,
    /// and none make an interactive session.
    pub fn select(from_stdin: bool, words: Vec<String>) -> (r: Mode)
        ensures
            from_stdin ==> r is FromStdin,
            !from_stdin && words@.len() == 0 ==> r is Interact,
            !from_stdin && words@.len() > 0 ==> r == Mode::Batch(words),
    {
        if from_stdin {
            Mode::FromStdin
        } else if words.len() == 0 {
            Mode::Interact
        } else {
            Mode::Batch(words)
        }
    }
}

} // verus!
