//! What to run when the window manager has started.

use vstd::prelude::*;

verus! {

/// A program that is to be spawned once, when the window manager starts.
#[derive(Debug, PartialEq, Eq)]
pub struct SpawnOnStartup {
    prog: String,
}

impl View for SpawnOnStartup {
    type V = Seq<char>;

    /// The command line of the program.
    closed spec fn view(&self) -> Seq<char> {
        self.prog@
    }
}

impl Clone for SpawnOnStartup {
    fn clone(&self) -> (copy: SpawnOnStartup)
        ensures
            copy@ == self@,
    {
        SpawnOnStartup { prog: self.prog.clone() }
    }
}

impl SpawnOnStartup {
    /// A hook that spawns `prog`.
    pub fn new(prog: String) -> (hook: SpawnOnStartup)
        ensures
            hook@ == prog@,
    {
        SpawnOnStartup { prog }
    }

    /// The command line that the hook spawns.
    pub fn program(&self) -> (prog: &str)
        ensures
            prog@ == self@,
    {
        self.prog.as_str()
    }
}

} // verus!
