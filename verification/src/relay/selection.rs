//! The criteria of the three positions of a circuit.

use vstd::prelude::*;
use crate::relay::flags;
use crate::relay::{CriteriaView, RelayCriteria};

verus! {

/// Criteria for the middle of a circuit: fast, stable, and a directory
/// cache.
pub fn middle_relays() -> (c: RelayCriteria)
    ensures
        c@ == (CriteriaView {
            need_flags: set!["Fast"@, "Stable"@, "V2Dir"@],
            exclude_flags: Set::empty(),
            min_bandwidth: 0,
            max_selection: 10,
        }),
{
    let c = RelayCriteria::new().with_flag(flags::FAST).with_flag(flags::STABLE).with_flag(
        flags::V2DIR,
    );
    c
}

/// Criteria for the exit of a circuit: fast, stable, an exit, and not a
/// bad one.
pub fn exit_relays() -> (c: RelayCriteria)
    ensures
        c@ == (CriteriaView {
            need_flags: set!["Fast"@, "Stable"@, "Exit"@],
            exclude_flags: set!["BadExit"@],
            min_bandwidth: 0,
            max_selection: 10,
        }),
{
    let c = RelayCriteria::new().with_flag(flags::FAST).with_flag(flags::STABLE).with_flag(
        flags::EXIT,
    ).without_flag(flags::BAD_EXIT);
    c
}

/// Criteria for the entry of a circuit: fast, stable, and a guard.
pub fn guard_relays() -> (c: RelayCriteria)
    ensures
        c@ == (CriteriaView {
            need_flags: set!["Fast"@, "Stable"@, "Guard"@],
            exclude_flags: Set::empty(),
            min_bandwidth: 0,
            max_selection: 10,
        }),
{
    let c = RelayCriteria::new().with_flag(flags::FAST).with_flag(flags::STABLE).with_flag(
        flags::GUARD,
    );
    c
}

} // verus!
