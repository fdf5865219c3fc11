//! Tool modes and item templates: the palette offers a small set of
//! template ids, each with a fixed human-readable label used by the
//! export; the editor is always in exactly one of two modes.

use vstd::prelude::*;

verus! {

/// The editor's tool mode.  Palette clicks force `Building`; the eraser
/// button forces `Erasing`.  There are no other transitions.
#[derive(Clone, Copy, Debug, PartialEq, Eq, Structural)]
pub enum Mode {
    Building,
    Erasing,
}

/// Number of selectable item templates on the palette.
pub const TEMPLATE_COUNT: u32 = 6;

/// Sprite index the tool cursor shows while erasing.
pub const ERASER_GLYPH: u32 = 6;

/// The fixed label of a template id; unknown ids degrade to the empty
/// label rather than failing.
pub open spec fn spec_template_name(id: int) -> Seq<char> {
    if id == 0 {
        "blackhole"@
    } else if id == 1 {
        "rainbow"@
    } else if id == 2 {
        "energybar"@
    } else if id == 3 {
        "regular"@
    } else if id == 4 {
        "plane"@
    } else if id == 5 {
        "planet"@
    } else {
        ""@
    }
}

/// Returns the label of a template id.
pub fn template_name(id: u32) -> (r: String)
    ensures
        r@ == spec_template_name(id as int),
{
    let s: &str = match id {
        0 => "blackhole",
        1 => "rainbow",
        2 => "energybar",
        3 => "regular",
        4 => "plane",
        5 => "planet",
        _ => "",
    };
    String::from_str(s)
}

} // verus!
