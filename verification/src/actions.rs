//! A free-standing action-description record. The session derives its
//! menu from `UserActions`; this record only carries a display line.

use vstd::prelude::*;

verus! {

/// A menu entry described by its display line alone.
pub struct UserAction {
    pub description: &'static str,
}

} // verus!
