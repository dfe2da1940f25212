use crate::table::Table;
use vstd::prelude::*;

verus! {

#[derive(Clone, Copy, Debug, PartialEq, Eq, Structural)]
pub struct WindowState {
    pub minimized: bool,
    pub active: bool,
}

/// A process with windows, and whether it is napping.
#[derive(Debug)]
pub struct Process {
    pub windows: Table<WindowState>,
    pub is_napping: bool,
}

impl Process {
    pub fn new() -> (r: Self)
        ensures
            r.windows.wf(),
            r.windows.view() == Map::<Seq<char>, WindowState>::empty(),
            !r.is_napping,
    {
        Self { windows: Table::new(), is_napping: false }
    }
}

} // verus!
