use vstd::prelude::*;

verus! {

/// Where a laid-out line of text stands relative to its anchor, horizontally.
#[derive(Debug, Clone, Copy, PartialEq, Eq, Hash, Structural)]
pub enum TextHorizontalAlign {
    Start,
    Center,
    End,
}

impl Default for TextHorizontalAlign {
    fn default() -> (r: TextHorizontalAlign)
        ensures
            r == TextHorizontalAlign::Start,
    {
        TextHorizontalAlign::Start
    }
}

/// Where a laid-out block of text stands relative to its anchor, vertically.
#[derive(Debug, Clone, Copy, PartialEq, Eq, Hash, Structural)]
pub enum TextVerticalAlign {
    Top,
    Middle,
    Bottom,
}

impl Default for TextVerticalAlign {
    fn default() -> (r: TextVerticalAlign)
        ensures
            r == TextVerticalAlign::Top,
    {
        TextVerticalAlign::Top
    }
}

} // verus!
