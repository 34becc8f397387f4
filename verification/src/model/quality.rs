//! Quality input contract: an integer scale 0..=100 and an explicit PNG mode.

use vstd::prelude::*;

verus! {

/// Lossy quality scale in 0..=100; 100 is still not strictly pixel-lossless.
/// Construction checks the range; the default value is 80.
#[derive(Debug, Clone, Copy, PartialEq, Eq, Structural)]
pub struct QualityValue(u8);

impl QualityValue {
    /// The integer this quality holds.
    pub closed spec fn value(self) -> int {
        self.0 as int
    }

    #[verifier::type_invariant]
    spec fn in_range(self) -> bool {
        self.0 <= 100
    }

    /// Checks an integer against 0..=100; never truncates or clamps.
    pub fn new(value: i32) -> (r: Result<Self, InvalidQuality>)
        ensures
            (0 <= value <= 100) <==> r is Ok,
            r matches Ok(q) ==> q.value() == value,
            r matches Err(e) ==> e.0 == value,
    {
        if 0 <= value && value <= 100 {
            Ok(QualityValue(value as u8))
        } else {
            Err(InvalidQuality(value))
        }
    }

    /// The validated integer.
    pub fn get(self) -> (r: u8)
        ensures
            r as int == self.value(),
            r <= 100,
    {
        proof {
            use_type_invariant(&self);
        }
        self.0
    }

    /// The default quality, 80.
    pub fn default_value() -> (r: Self)
        ensures
            r.value() == 80,
    {
        QualityValue(80)
    }
}

/// A rejected quality parameter; keeps the original integer for diagnostics.
#[derive(Debug, Clone, Copy, PartialEq, Eq, Structural)]
pub struct InvalidQuality(pub i32);

impl Default for QualityValue {
    /// The default quality, 80.
    fn default() -> (r: Self)
        ensures
            r.value() == 80,
    {
        QualityValue(80)
    }
}

/// PNG mode. Lossless carries no quality, so a leftover quality cannot be misused.
/// The developer API defaults to lossless.
#[derive(Debug, Clone, Copy, PartialEq, Eq, Structural)]
pub enum PngMode {
    Lossless,
    Lossy { quality: QualityValue },
}

impl Default for PngMode {
    /// Lossless.
    fn default() -> (r: Self)
        ensures
            r == PngMode::Lossless,
    {
        PngMode::Lossless
    }
}

/// Resolved PNG quality parameters; not an option callers can pass to the quantizer.
#[derive(Debug, Clone, Copy, PartialEq, Eq, Structural)]
pub struct PngQualityMapping {
    pub version: u32,
    pub quality: QualityValue,
    pub minimum: u8,
    pub target: u8,
}

/// Why a lossy candidate was not adopted; the result still goes through strict
/// lossless validation and the size check.
#[derive(Debug, Clone, Copy, PartialEq, Eq, Structural)]
pub enum LossyFallbackReason {
    HighBitDepth,
    ColorMetadata,
    RepresentationMetadata,
    QualityBelowTarget { measured: Option<u8> },
    TransparencyGuard,
    NoSizeBenefit,
}

/// The processing path actually taken, not a copy of the requested mode.
#[derive(Debug, Clone, Copy, PartialEq, Eq, Structural)]
pub enum PngProcessing {
    Lossless,
    Lossy { mapping: PngQualityMapping, measured_quality: u8 },
    LosslessFallback { mapping: PngQualityMapping, reason: LossyFallbackReason },
}

} // verus!
