//! The research UI's data: the field-definition file, how a field is
//! labelled, and when the UI looks at the file and the selected thing again.

pub mod definition_file;
pub mod widgets;

use vstd::prelude::*;

verus! {

/// How long the UI waits between looks at the definition file's
/// modification time: two seconds, in nanoseconds.
pub const RELOAD_INTERVAL_NANOS: u128 = 2_000_000_000;

/// How many things the game's thing array holds.
pub const THING_COUNT: u16 = 4000;

/// How many entries the game's thing-data array holds.
pub const THING_DATA_COUNT: u16 = 1718;

/// Whether the definition file is due for a look: strictly more than two
/// seconds have passed since the last one. `None` stands for a clock that went
/// backwards, which never makes a look due.
pub fn reload_due(elapsed_nanos: Option<u128>) -> (r: bool)
    ensures
        r == (elapsed_nanos is Some && elapsed_nanos->0 > RELOAD_INTERVAL_NANOS),
{
    match elapsed_nanos {
        Some(t) => t > RELOAD_INTERVAL_NANOS,
        None => false,
    }
}

/// Whether the thing panel is drawn for the selected thing index: the index
/// must be inside the thing array (the unselected state is `u16::MAX`).
pub fn thing_selected(idx: u16) -> (r: bool)
    ensures
        r == (idx < THING_COUNT),
{
    idx < THING_COUNT
}

/// Whether a thing's name index lies inside the thing-data array, so that
/// the thing can be shown.
pub fn thing_named(name_idx: u16) -> (r: bool)
    ensures
        r == (name_idx < THING_DATA_COUNT),
{
    name_idx < THING_DATA_COUNT
}

} // verus!
