use vstd::prelude::*;

verus! {

/// The ways a recoloring run can fail. Every one of them ends the run.
#[derive(Clone, Copy, Debug, PartialEq, Eq, Structural)]
pub enum RecolorError {
    /// The palette token at this position (counted from zero) is not a hex
    /// colour literal.
    PaletteFormat { token: usize },
    /// The palette has fewer entries than the interpolation mode needs; this
    /// is the first pixel (counted from zero) that could not be resolved.
    InsufficientPalette { pixel: usize },
}

} // verus!
