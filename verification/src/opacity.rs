//! How dark the overlay is.

use vstd::prelude::*;

verus! {

/// The opacity of the overlay, on the scale of an 8-bit alpha channel.
#[derive(Debug, Clone, Copy, PartialEq, Eq, Structural)]
pub struct Opacity {
    /// The alpha byte of every pixel: 0 is clear, 255 is black.
    pub level: u8,
    /// Whether the requested opacity is above zero at all. A request may be so
    /// faint that its alpha byte is 0 and still ask for an overlay.
    pub visible: bool,
}

impl Opacity {
    /// Nothing is covered.
    pub open spec fn spec_clear() -> Opacity {
        Opacity { level: 0, visible: false }
    }

    /// The screen is black.
    pub open spec fn spec_black() -> Opacity {
        Opacity { level: 255, visible: true }
    }

    /// Nothing is covered.
    pub fn clear() -> (r: Opacity)
        ensures
            r == Opacity::spec_clear(),
    {
        Opacity { level: 0, visible: false }
    }

    /// The screen is black.
    pub fn black() -> (r: Opacity)
        ensures
            r == Opacity::spec_black(),
    {
        Opacity { level: 255, visible: true }
    }
}

/// No opacity is darker than black, and none is lighter than clear, which alone of
/// the two asks for nothing to be shown.
pub proof fn law_black_is_darkest(o: Opacity)
    ensures
        o.level <= Opacity::spec_black().level,
        Opacity::spec_clear().level <= o.level,
        Opacity::spec_black().visible,
        !Opacity::spec_clear().visible,
        Opacity::spec_black().level == 255,
        Opacity::spec_clear().level == 0,
{
}

} // verus!
