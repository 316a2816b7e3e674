use vstd::prelude::*;

verus! {

/// How texture coordinates outside `[0, 1]` are resolved along one axis.
#[derive(Debug, Clone, Copy, PartialEq, Eq, Hash, Structural)]
pub enum WrapMode {
    Repeat,
    MirroredRepeat,
    ClampToEdge,
    MirrorClampToEdge,
    ClampToBorder,
}

impl Default for WrapMode {
    fn default() -> (r: WrapMode)
        ensures
            r == WrapMode::Repeat,
    {
        WrapMode::Repeat
    }
}

/// Edge wrapping, chosen independently per axis.
#[derive(Debug, Clone, Copy, PartialEq, Eq, Hash, Structural)]
pub struct Wrap {
    pub horizontal: WrapMode,
    pub vertical: WrapMode,
    pub depth: WrapMode,
}

impl Default for Wrap {
    fn default() -> (r: Wrap)
        ensures
            r == (Wrap {
                horizontal: WrapMode::Repeat,
                vertical: WrapMode::Repeat,
                depth: WrapMode::Repeat,
            }),
    {
        Wrap { horizontal: WrapMode::Repeat, vertical: WrapMode::Repeat, depth: WrapMode::Repeat }
    }
}

impl Wrap {
    pub fn new(horizontal: WrapMode, vertical: WrapMode, depth: WrapMode) -> (r: Wrap)
        ensures
            r == (Wrap { horizontal, vertical, depth }),
    {
        Wrap { horizontal, vertical, depth }
    }

    /// Wrapping for the two surface axes; the depth axis repeats.
    pub fn uv(horizontal: WrapMode, vertical: WrapMode) -> (r: Wrap)
        ensures
            r == (Wrap { horizontal, vertical, depth: WrapMode::Repeat }),
    {
        Wrap::new(horizontal, vertical, WrapMode::default())
    }
}

/// Sampling between texels, or between mip levels.
#[derive(Debug, Clone, Copy, PartialEq, Eq, Hash, Structural)]
pub enum FilterMode {
    Nearest,
    Linear,
}

/// Minification and magnification filtering, with an optional mipmap mode;
/// `mipmap == None` disables mip sampling and mip generation.
#[derive(Debug, Clone, Copy, PartialEq, Eq, Hash, Structural)]
pub struct Filter {
    pub min: FilterMode,
    pub mag: FilterMode,
    pub mipmap: Option<FilterMode>,
}

impl Filter {
    pub fn new(min: FilterMode, mag: FilterMode, mipmap: Option<FilterMode>) -> (r: Filter)
        ensures
            r == (Filter { min, mag, mipmap }),
    {
        Filter { min, mag, mipmap }
    }

    /// The filter samples between mip levels, so the texture needs them generated.
    pub fn uses_mipmap(&self) -> (r: bool)
        ensures
            r == self.mipmap is Some,
    {
        self.mipmap.is_some()
    }
}

impl Default for Filter {
    fn default() -> (r: Filter)
        ensures
            r == (Filter { min: FilterMode::Linear, mag: FilterMode::Linear, mipmap: None }),
    {
        Filter { min: FilterMode::Linear, mag: FilterMode::Linear, mipmap: None }
    }
}

} // verus!
