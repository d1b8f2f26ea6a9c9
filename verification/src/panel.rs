//! Requests that a panel makes of the interface.
use vstd::prelude::*;

verus! {

/// What a panel asks the interface to do.
#[derive(Debug)]
pub enum PanelAction {
    SetTitle(String),
    Close,
    Redraw,
}

} // verus!
