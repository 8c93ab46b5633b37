//! Visual styles of the simulation, selectable at startup.

use vstd::prelude::*;

verus! {

/// The visual style a renderer should imitate.
#[derive(Debug, Clone, Copy, PartialEq, Eq, Structural)]
pub enum DefragStyle {
    /// MS-DOS 6.x style (text-based).
    MsDos,
    /// Windows 95 style (graphical).
    Windows95,
    /// Windows 98 style (graphical, improved).
    Windows98,
}

impl DefragStyle {
    /// The display name of the style.
    pub fn name(&self) -> (r: &'static str)
        ensures
            r@ == (match self {
                DefragStyle::MsDos => "MS-DOS 6.x Defrag"@,
                DefragStyle::Windows95 => "Windows 95 Defrag"@,
                DefragStyle::Windows98 => "Windows 98 Defrag"@,
            }),
    {
        match self {
            DefragStyle::MsDos => "MS-DOS 6.x Defrag",
            DefragStyle::Windows95 => "Windows 95 Defrag",
            DefragStyle::Windows98 => "Windows 98 Defrag",
        }
    }
}

} // verus!
