use vstd::prelude::*;

verus! {

/// Why a configuration is rejected before any buffer is allocated.
#[derive(Clone, Copy, Debug, PartialEq, Eq, Structural)]
pub enum ConfigError {
    /// The analysis window has fewer than two samples, so the Hann taper is
    /// undefined.
    WindowTooShort,
    /// The analysis window is longer than the transform buffer.
    WindowExceedsTransform,
    /// The hop between successive frames is zero.
    ZeroHop,
    /// A mel filter bank with no filters was requested.
    ZeroMels,
    /// The lower edge of the mel band is not below its upper edge.
    EmptyBand,
    /// Two mel boundary points that must enclose a filter are not strictly
    /// increasing, so the filter's normalisation would divide by zero.
    DegenerateMelSpacing,
}

} // verus!
