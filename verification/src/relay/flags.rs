//! The names of the flags a consensus gives to relays.

use vstd::prelude::*;

verus! {

pub const AUTHORITY: &'static str = "Authority";

pub const BAD_EXIT: &'static str = "BadExit";

pub const EXIT: &'static str = "Exit";

pub const FAST: &'static str = "Fast";

pub const GUARD: &'static str = "Guard";

pub const HSDIR: &'static str = "HSDir";

pub const NAMED: &'static str = "Named";

pub const STABLE: &'static str = "Stable";

pub const RUNNING: &'static str = "Running";

pub const VALID: &'static str = "Valid";

pub const V2DIR: &'static str = "V2Dir";

} // verus!
