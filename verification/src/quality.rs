//! Versioned pure quality mapping. Speed and dithering are fixed by the
//! quantizer adapter and are not implied by the quality value.

use crate::model::{PngQualityMapping, QualityValue};
use vstd::prelude::*;

verus! {

/// PNG mapping version 1: quantizer minimum 0, target q.
pub const PNG_QUALITY_MAPPING_VERSION: u32 = 1;

/// The mapping of version 1 for a quality value.
pub open spec fn spec_png_quality(quality: QualityValue) -> PngQualityMapping {
    PngQualityMapping {
        version: 1,
        quality: quality,
        minimum: 0,
        target: quality.value() as u8,
    }
}

/// Resolves an already range-checked quality; no I/O, no side effects.
/// The native minimum is 0; the final candidate must still pass the measured
/// remapping score and the transparency guard.
pub fn png_quality(quality: QualityValue) -> (r: PngQualityMapping)
    ensures
        r == spec_png_quality(quality),
        r.target as int == quality.value(),
        r.target <= 100,
{
    PngQualityMapping {
        version: PNG_QUALITY_MAPPING_VERSION,
        quality,
        minimum: 0,
        target: quality.get(),
    }
}

} // verus!
