//! The owner of an interpreter.

use vstd::prelude::*;
use crate::state::{State, StateView};

verus! {

/// An interpreter, which owns its main execution context.
pub struct Lua {
    main: State,
}

impl View for Lua {
    type V = StateView;

    closed spec fn view(&self) -> StateView {
        self.main@
    }
}

impl Lua {
    /// The main context is well formed.
    pub closed spec fn wf(&self) -> bool {
        self.main.wf()
    }

    /// A fresh interpreter, with no library opened.
    pub fn new() -> (lua: Lua)
        ensures
            lua@ == StateView::initial(),
            lua.wf(),
    {
        Lua { main: State::new() }
    }

    /// A fresh interpreter with its libraries opened. The interpreter
    /// modelled here has no libraries of its own, so that nothing is
    /// added to the globals.
    pub fn with_open_libs() -> (lua: Lua)
        ensures
            lua@ == StateView::initial(),
            lua.wf(),
    {
        let mut this = Self::new();
        this.main.open_libs();
        this
    }

    /// The main context.
    pub fn state(&self) -> (s: &State)
        ensures
            s@ == self@,
            s.wf() == self.wf(),
    {
        &self.main
    }

    /// Gives the main context away, for the host to work in.
    pub fn into_state(self) -> (s: State)
        ensures
            s@ == self@,
            s.wf() == self.wf(),
    {
        self.main
    }

    /// Takes a context back as the main context of the interpreter.
    pub fn from_state(main: State) -> (lua: Lua)
        ensures
            lua@ == main@,
            lua.wf() == main.wf(),
    {
        Lua { main }
    }
}

impl State {
    /// Opens the interpreter's own libraries, of which the interpreter
    /// modelled here has none.
    pub fn open_libs(&mut self)
        ensures
            *final(self) == *old(self),
    {
    }
}

} // verus!
