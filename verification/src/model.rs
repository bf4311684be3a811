//! The data model: detection results as they enter the library and
//! compacted records as they leave it.
//!
//! Scalar measurements (landmark coordinates, classification scores) are
//! fixed-point integers in fine units (`quant::MICRO` per 1.0). A pose
//! matrix entry is never interpreted by the library: it is carried as its
//! full-precision numeric text, so that the passthrough component forwards
//! it unmodified.

use vstd::prelude::*;
use crate::quant::in_coord_range;

verus! {

/// One normalized spatial point; coordinates in fine fixed-point units.
/// The depth coordinate is optional: upstream may not produce it.
pub struct NormalizedLandmark {
    pub x: i64,
    pub y: i64,
    pub z: Option<i64>,
}

impl NormalizedLandmark {
    /// Every coordinate is small enough to quantize without overflow.
    pub open spec fn wf(self) -> bool {
        &&& in_coord_range(self.x as int)
        &&& in_coord_range(self.y as int)
        &&& match self.z {
            Some(zv) => in_coord_range(zv as int),
            None => true,
        }
    }
}

/// Every landmark of one tracked face is well formed.
pub open spec fn landmark_set_wf(s: Seq<NormalizedLandmark>) -> bool {
    forall|i: int| 0 <= i < s.len() ==> s[i].wf()
}

/// Every landmark set of a detection result is well formed.
pub open spec fn landmark_sets_wf(s: Seq<Vec<NormalizedLandmark>>) -> bool {
    forall|i: int| 0 <= i < s.len() ==> landmark_set_wf(#[trigger] s[i]@)
}

/// Which output components the caller wants, and whether depth
/// coordinates are stripped from the landmark stream.
pub struct NormalizedLandmarkComponentConfig {
    pub face_transformation: bool,
    pub landmarks: bool,
    pub blendshapes: bool,
    pub strip_z_coordinates: bool,
}

/// One expression classification channel: a confidence score (fine
/// fixed-point units), the channel's raw index, and its name.
pub struct Category {
    pub score: i64,
    pub index: i32,
    pub category_name: String,
}

impl Category {
    /// The score is small enough to quantize without overflow.
    pub open spec fn wf(self) -> bool {
        in_coord_range(self.score as int)
    }
}

/// One ordered group of classification channels; order carries the
/// channel-to-index alignment and must be preserved.
pub struct Classifications {
    pub categories: Vec<Category>,
}

impl Classifications {
    /// Every category of the group is well formed.
    pub open spec fn wf(self) -> bool {
        forall|i: int| 0 <= i < self.categories@.len() ==> self.categories@[i].wf()
    }
}

/// Every classification group of a detection result is well formed.
pub open spec fn classification_groups_wf(s: Seq<Classifications>) -> bool {
    forall|i: int| 0 <= i < s.len() ==> (#[trigger] s[i]).wf()
}

/// A character that may appear in the numeric text of a matrix entry.
pub open spec fn is_number_char(c: char) -> bool {
    ('0' <= c && c <= '9') || c == '-' || c == '+' || c == '.' || c == 'e' || c == 'E'
}

/// Numeric text: nonempty, made of number characters only. Such a token
/// can be spliced into the single-line textual form as it stands.
pub open spec fn is_number_token(s: Seq<char>) -> bool {
    s.len() > 0 && forall|i: int| 0 <= i < s.len() ==> is_number_char(s[i])
}

/// One head-pose transformation matrix, row-major, each entry carried as
/// full-precision numeric text that the library never interprets.
pub struct TransformationMatrix {
    pub data: Vec<String>,
}

impl TransformationMatrix {
    /// Every entry is a numeric token.
    pub open spec fn wf(self) -> bool {
        forall|i: int| 0 <= i < self.data@.len() ==> is_number_token(#[trigger] self.data@[i]@)
    }
}

/// Every matrix of a detection result is well formed.
pub open spec fn matrices_wf(s: Seq<TransformationMatrix>) -> bool {
    forall|i: int| 0 <= i < s.len() ==> (#[trigger] s[i]).wf()
}

/// One detection result as produced upstream. Each component is
/// independently optional: `None` means "upstream did not produce this
/// component", which is distinct from an empty sequence.
pub struct FaceLandmarkerResult {
    pub face_landmarks: Option<Vec<Vec<NormalizedLandmark>>>,
    pub facial_transformation_matrixes: Option<Vec<TransformationMatrix>>,
    pub face_blendshapes: Option<Vec<Classifications>>,
}

impl FaceLandmarkerResult {
    /// Every component that is present is well formed.
    pub open spec fn wf(self) -> bool {
        &&& match self.face_landmarks {
            Some(sets) => landmark_sets_wf(sets@),
            None => true,
        }
        &&& match self.facial_transformation_matrixes {
            Some(ms) => matrices_wf(ms@),
            None => true,
        }
        &&& match self.face_blendshapes {
            Some(gs) => classification_groups_wf(gs@),
            None => true,
        }
    }
}

/// One compacted landmark set: the flattened quantized coordinate stream
/// and a flag recording whether depth coordinates were retained.
pub struct CompressedNormalizedLandmark {
    pub p: Vec<i32>,
    pub z: bool,
}

/// One compacted classification group: three sequences aligned by
/// category position — quantized scores, raw indices, resolved ids.
pub struct CompressedClassifications {
    pub s: Vec<i32>,
    pub i: Vec<i32>,
    pub c: Vec<i32>,
}

impl CompressedClassifications {
    /// The three sequences stay aligned one-to-one.
    pub open spec fn aligned(self) -> bool {
        self.s@.len() == self.i@.len() && self.i@.len() == self.c@.len()
    }
}

/// The compacted output record. A component left out by the selection
/// policy is structurally absent, never present-but-empty. `t` is the
/// capture timestamp and `dt` the processing latency, both in the
/// caller's clock ticks.
pub struct CompressedFaceLandmarkerResult {
    pub landmarks: Option<Vec<CompressedNormalizedLandmark>>,
    pub blendshapes: Option<Vec<CompressedClassifications>>,
    pub matrices: Option<Vec<Vec<String>>>,
    pub t: i64,
    pub dt: i64,
}

impl CompressedFaceLandmarkerResult {
    /// Every matrix entry that the record carries is a numeric token, so
    /// the record has a single-line textual form.
    pub open spec fn wf(self) -> bool {
        match self.matrices {
            Some(ms) => forall|i: int, j: int|
                0 <= i < ms@.len() && 0 <= j < ms@[i]@.len() ==> is_number_token(#[trigger] ms@[i]@[j]@),
            None => true,
        }
    }
}

} // verus!
