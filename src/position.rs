//! Positions (1-based, shown to the user) and indices (0-based, internal).

use vstd::prelude::*;

verus! {

/// The index that an optional position selects: the first entry when no
/// position is given, otherwise the entry one before the position.
pub open spec fn resolved(pos: Option<u8>) -> int {
    match pos {
        Some(p) => p - 1,
        None => 0,
    }
}

/// A position is 1-based: zero names no entry.
pub open spec fn valid_pos(pos: Option<u8>) -> bool {
    match pos {
        Some(p) => p >= 1,
        None => true,
    }
}

/// The index of the entry shown at position `pos`.
pub fn pos_to_id(pos: u8) -> (id: usize)
    requires
        pos >= 1,
    ensures
        id == pos - 1,
{
    (pos - 1) as usize
}

/// The position at which the entry of index `id` is shown.
pub fn id_to_pos(id: usize) -> (pos: usize)
    requires
        id < usize::MAX,
    ensures
        pos == id + 1,
{
    id + 1
}

/// The index that an optional position selects; no position selects the
/// first (most recent) entry. No bounds are checked here.
pub fn resolve_position(pos: Option<u8>) -> (id: usize)
    requires
        valid_pos(pos),
    ensures
        id == resolved(pos),
        id < 255,
{
    match pos {
        Some(p) => pos_to_id(p),
        None => 0,
    }
}

} // verus!
