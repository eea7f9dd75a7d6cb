//! What is known of a program: its title and whether it suits the original CHIP-8.

use vstd::prelude::*;
use vstd::string::*;

verus! {

/// Whether a program is known to run correctly on the original CHIP-8.
#[derive(Debug, Clone, Copy, PartialEq, Eq, Structural)]
pub enum Compatibility {
    Compatible,
    NotCompatible,
    /// The program is not in the database (the default).
    NotInList,
}

impl Default for Compatibility {
    fn default() -> (c: Compatibility)
        ensures
            c == Compatibility::NotInList,
    {
        Compatibility::NotInList
    }
}

/// The warning shown for a program that is not known to be compatible.
pub open spec fn compatibility_warning(c: Compatibility) -> Seq<char> {
    match c {
        Compatibility::NotInList => "warning: program is not in rom database so compatibility is not guaranteed"@,
        _ => "warning: program is not compatible with the original chip-8\nthe program may run, but not correctly"@,
    }
}

impl Compatibility {
    /// The warning for `NotInList` and `NotCompatible`; a compatible
    /// program has no warning to show.
    pub fn message(&self) -> (s: String)
        requires
            *self != Compatibility::Compatible,
        ensures
            s@ == compatibility_warning(*self),
    {
        match self {
            Compatibility::NotInList => String::from_str(
                "warning: program is not in rom database so compatibility is not guaranteed",
            ),
            _ => String::from_str(
                "warning: program is not compatible with the original chip-8\nthe program may run, but not correctly",
            ),
        }
    }
}

/// A program's title and compatibility.
pub struct RomInfo {
    pub title: String,
    pub compatibility: Compatibility,
}

impl Default for RomInfo {
    /// An empty title, not in the database.
    fn default() -> (info: RomInfo)
        ensures
            info.title@ == Seq::<char>::empty(),
            info.compatibility == Compatibility::NotInList,
    {
        RomInfo { title: String::new(), compatibility: Compatibility::default() }
    }
}

} // verus!
