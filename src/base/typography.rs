//! The font settings of text in a scene.

use vstd::prelude::*;

verus! {

/// Font family list used for text.
pub const FONT_FAMILY: &'static str = "system-ui, -apple-system, Segoe UI, Roboto, Arial, sans-serif";

/// Bold.
pub const FONT_WEIGHT: u16 = 700;

/// A font family and weight.
#[derive(Debug, Clone)]
pub struct Typography {
    pub family: &'static str,
    pub weight: u16,
}

impl Default for Typography {
    fn default() -> (r: Self)
        ensures
            r.family@ == FONT_FAMILY@,
            r.weight == FONT_WEIGHT,
    {
        Typography { family: FONT_FAMILY, weight: FONT_WEIGHT }
    }
}

} // verus!
