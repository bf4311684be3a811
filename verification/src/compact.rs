//! The compaction transform: component selection, per-component
//! compactors, and the envelope assembler.

use vstd::prelude::*;
use crate::model::{
    classification_groups_wf, is_number_token, landmark_set_wf, landmark_sets_wf, matrices_wf,
    Category, Classifications, CompressedClassifications, CompressedFaceLandmarkerResult,
    CompressedNormalizedLandmark, FaceLandmarkerResult, NormalizedLandmark,
    NormalizedLandmarkComponentConfig, TransformationMatrix,
};
use crate::quant::{quantize, spec_quantize};
use crate::vocab::{resolve_spec, Vocabulary};

verus! {

/// The availability policy: the call emits a record only when every
/// upstream component it depends on is present. Pose matrices are needed
/// only when requested; landmark sets and classification groups must be
/// present whether requested or not.
pub open spec fn has_required_data(
    config: NormalizedLandmarkComponentConfig,
    datapoint: FaceLandmarkerResult,
) -> bool {
    &&& !(config.face_transformation && datapoint.facial_transformation_matrixes is None)
    &&& datapoint.face_landmarks is Some
    &&& datapoint.face_blendshapes is Some
}

/// Absent landmark sets abort the call, whatever the configuration says.
pub proof fn lemma_absent_landmarks_abort(
    config: NormalizedLandmarkComponentConfig,
    datapoint: FaceLandmarkerResult,
)
    requires
        datapoint.face_landmarks is None,
    ensures
        !has_required_data(config, datapoint),
{
}

/// Absent classification groups abort the call, whatever the
/// configuration says.
pub proof fn lemma_absent_blendshapes_abort(
    config: NormalizedLandmarkComponentConfig,
    datapoint: FaceLandmarkerResult,
)
    requires
        datapoint.face_blendshapes is None,
    ensures
        !has_required_data(config, datapoint),
{
}

/// Absent pose matrices abort the call when the pose transform is
/// requested.
pub proof fn lemma_absent_matrices_abort(
    config: NormalizedLandmarkComponentConfig,
    datapoint: FaceLandmarkerResult,
)
    requires
        config.face_transformation,
        datapoint.facial_transformation_matrixes is None,
    ensures
        !has_required_data(config, datapoint),
{
}

/// Whether a record is emitted never depends on the landmark,
/// blendshape or strip-z flags: leaving a component flag unset omits the
/// component but does not abort the call.
pub proof fn lemma_unset_flags_do_not_abort(
    c1: NormalizedLandmarkComponentConfig,
    c2: NormalizedLandmarkComponentConfig,
    datapoint: FaceLandmarkerResult,
)
    requires
        c1.face_transformation == c2.face_transformation,
    ensures
        has_required_data(c1, datapoint) == has_required_data(c2, datapoint),
{
}

/// The quantized items one landmark contributes to the flattened stream:
/// `x, y` and, unless stripped or absent, `z`.
pub open spec fn point_items(lm: NormalizedLandmark, strip: bool) -> Seq<i32> {
    let xy = seq![
        spec_quantize(lm.x as int) as i32,
        spec_quantize(lm.y as int) as i32,
    ];
    if strip {
        xy
    } else {
        match lm.z {
            Some(zv) => xy.push(spec_quantize(zv as int) as i32),
            None => xy,
        }
    }
}

/// The flattened quantized stream of one landmark set, in landmark
/// order.
pub open spec fn flattened_points(s: Seq<NormalizedLandmark>, strip: bool) -> Seq<i32>
    decreases s.len(),
{
    if s.len() == 0 {
        Seq::empty()
    } else {
        flattened_points(s.drop_last(), strip) + point_items(s.last(), strip)
    }
}

/// Compact one landmark set: quantize and flatten its coordinates and
/// record whether depth was retained.
pub fn compact_landmark_set(set: &Vec<NormalizedLandmark>, strip: bool) -> (r:
    CompressedNormalizedLandmark)
    requires
        landmark_set_wf(set@),
    ensures
        r.z == !strip,
        r.p@ == flattened_points(set@, strip),
{
    let mut points: Vec<i32> = Vec::new();
    let n = set.len();
    let mut j: usize = 0;
    proof {
        assert(set@.take(0) =~= Seq::<NormalizedLandmark>::empty());
    }
    while j < n
        invariant
            n == set@.len(),
            j <= n,
            landmark_set_wf(set@),
            points@ == flattened_points(set@.take(j as int), strip),
        decreases n - j,
    {
        let lm = &set[j];
        assert(set@[j as int].wf());
        points.push(quantize(lm.x));
        points.push(quantize(lm.y));
        if !strip {
            match lm.z {
                Some(zv) => points.push(quantize(zv)),
                None => (),
            }
        }
        proof {
            assert(set@.take(j as int + 1).drop_last() =~= set@.take(j as int));
            assert(set@.take(j as int + 1).last() == set@[j as int]);
            assert(points@ =~= flattened_points(set@.take(j as int + 1), strip));
        }
        j += 1;
    }
    proof {
        assert(set@.take(n as int) =~= set@);
    }
    CompressedNormalizedLandmark { p: points, z: !strip }
}

/// The compacted landmark sets match the source sets one to one, in
/// order, each flattened by `flattened_points` and carrying `!strip` as
/// its depth flag.
pub open spec fn compacted_landmarks(
    sets: Seq<Vec<NormalizedLandmark>>,
    strip: bool,
    out: Seq<CompressedNormalizedLandmark>,
) -> bool {
    &&& out.len() == sets.len()
    &&& forall|j: int|
        0 <= j < out.len() ==> (#[trigger] out[j]).z == !strip && out[j].p@ == flattened_points(
            sets[j]@,
            strip,
        )
}

/// Compact every landmark set, preserving set order.
pub fn compact_landmarks(sets: &Vec<Vec<NormalizedLandmark>>, strip: bool) -> (r: Vec<
    CompressedNormalizedLandmark,
>)
    requires
        landmark_sets_wf(sets@),
    ensures
        compacted_landmarks(sets@, strip, r@),
{
    let mut out: Vec<CompressedNormalizedLandmark> = Vec::new();
    let n = sets.len();
    let mut j: usize = 0;
    while j < n
        invariant
            n == sets@.len(),
            j <= n,
            landmark_sets_wf(sets@),
            out@.len() == j,
            forall|k: int|
                0 <= k < j ==> (#[trigger] out@[k]).z == !strip && out@[k].p@ == flattened_points(
                    sets@[k]@,
                    strip,
                ),
        decreases n - j,
    {
        let cl = compact_landmark_set(&sets[j], strip);
        out.push(cl);
        j += 1;
    }
    out
}

/// The quantized score stream of one group, in category order.
pub open spec fn quantized_scores(cats: Seq<Category>) -> Seq<i32> {
    cats.map_values(|c: Category| spec_quantize(c.score as int) as i32)
}

/// The raw index stream of one group, in category order.
pub open spec fn raw_indices(cats: Seq<Category>) -> Seq<i32> {
    cats.map_values(|c: Category| c.index)
}

/// The resolved id stream of one group: each category's name resolved
/// through the vocabulary, falling back to its raw index.
pub open spec fn resolved_ids(cats: Seq<Category>, entries: Seq<(String, i32)>) -> Seq<i32> {
    cats.map_values(|c: Category| resolve_spec(entries, c.category_name@, c.index))
}

/// Compact one classification group into its three aligned streams.
pub fn compact_group(group: &Classifications, vocab: &Vocabulary) -> (r: CompressedClassifications)
    requires
        group.wf(),
    ensures
        r.s@ == quantized_scores(group.categories@),
        r.i@ == raw_indices(group.categories@),
        r.c@ == resolved_ids(group.categories@, vocab.entries@),
        r.aligned(),
{
    let cats = &group.categories;
    let mut sv: Vec<i32> = Vec::new();
    let mut iv: Vec<i32> = Vec::new();
    let mut cv: Vec<i32> = Vec::new();
    let n = cats.len();
    let mut k: usize = 0;
    while k < n
        invariant
            n == cats@.len(),
            k <= n,
            group.wf(),
            cats == group.categories,
            sv@.len() == k && iv@.len() == k && cv@.len() == k,
            forall|x: int|
                0 <= x < k ==> sv@[x] == spec_quantize((#[trigger] cats@[x]).score as int) as i32,
            forall|x: int| 0 <= x < k ==> iv@[x] == (#[trigger] cats@[x]).index,
            forall|x: int|
                0 <= x < k ==> cv@[x] == resolve_spec(
                    vocab.entries@,
                    (#[trigger] cats@[x]).category_name@,
                    cats@[x].index,
                ),
        decreases n - k,
    {
        let cat = &cats[k];
        assert(group.categories@[k as int].wf());
        sv.push(quantize(cat.score));
        iv.push(cat.index);
        cv.push(vocab.resolve(&cat.category_name, cat.index));
        k += 1;
    }
    proof {
        assert(sv@ =~= quantized_scores(cats@));
        assert(iv@ =~= raw_indices(cats@));
        assert(cv@ =~= resolved_ids(cats@, vocab.entries@));
    }
    CompressedClassifications { s: sv, i: iv, c: cv }
}

/// The compacted groups match the source groups one to one, in order,
/// each aligned by category position.
pub open spec fn compacted_blendshapes(
    groups: Seq<Classifications>,
    entries: Seq<(String, i32)>,
    out: Seq<CompressedClassifications>,
) -> bool {
    &&& out.len() == groups.len()
    &&& forall|j: int|
        0 <= j < out.len() ==> {
            &&& (#[trigger] out[j]).s@ == quantized_scores(groups[j].categories@)
            &&& out[j].i@ == raw_indices(groups[j].categories@)
            &&& out[j].c@ == resolved_ids(groups[j].categories@, entries)
        }
}

/// Compact every classification group, preserving group order.
pub fn compact_classifications(groups: &Vec<Classifications>, vocab: &Vocabulary) -> (r: Vec<
    CompressedClassifications,
>)
    requires
        classification_groups_wf(groups@),
    ensures
        compacted_blendshapes(groups@, vocab.entries@, r@),
{
    let mut out: Vec<CompressedClassifications> = Vec::new();
    let n = groups.len();
    let mut j: usize = 0;
    while j < n
        invariant
            n == groups@.len(),
            j <= n,
            classification_groups_wf(groups@),
            out@.len() == j,
            forall|k: int|
                0 <= k < j ==> {
                    &&& (#[trigger] out@[k]).s@ == quantized_scores(groups@[k].categories@)
                    &&& out@[k].i@ == raw_indices(groups@[k].categories@)
                    &&& out@[k].c@ == resolved_ids(groups@[k].categories@, vocab.entries@)
                },
        decreases n - j,
    {
        let cg = compact_group(&groups[j], vocab);
        out.push(cg);
        j += 1;
    }
    out
}

/// Forward the raw entries of every pose matrix, unmodified and in
/// order: pose matrices are never quantized.
pub fn compact_matrices(ms: Vec<TransformationMatrix>) -> (r: Vec<Vec<String>>)
    ensures
        r@.len() == ms@.len(),
        forall|j: int| 0 <= j < ms@.len() ==> r@[j] == (#[trigger] ms@[j]).data,
{
    let ghost orig = ms@;
    let mut rest = ms;
    let mut out: Vec<Vec<String>> = Vec::new();
    proof {
        assert(rest@ =~= orig.skip(0));
    }
    while rest.len() > 0
        invariant
            out@.len() + rest@.len() == orig.len(),
            rest@ == orig.skip(out@.len() as int),
            forall|j: int| 0 <= j < out@.len() ==> out@[j] == (#[trigger] orig[j]).data,
        decreases rest@.len(),
    {
        let ghost k = out@.len() as int;
        let m = rest.remove(0);
        proof {
            assert(m == orig.skip(k)[0]);
            assert(orig.skip(k)[0] == orig[k]);
        }
        out.push(m.data);
        proof {
            assert(rest@ =~= orig.skip(k + 1));
        }
    }
    out
}

/// The whole per-frame transform: validate availability, run the
/// selected compactors, and stamp the envelope with the capture
/// timestamp `t` and the latency `now - t`.
///
/// `now` is the current reading of the caller's clock, so that the same
/// transform is checkable against a deterministic clock; `vocab` is the
/// category-name lookup, where an empty vocabulary reproduces the
/// raw-index fallback.
///
/// Returns `None` — "nothing to send", not an error — exactly when the
/// availability policy rejects the input.
pub fn compress_datapoint(
    config: &NormalizedLandmarkComponentConfig,
    datapoint: FaceLandmarkerResult,
    vocab: &Vocabulary,
    t: i64,
    now: i64,
) -> (r: Option<CompressedFaceLandmarkerResult>)
    requires
        datapoint.wf(),
        i64::MIN <= now as int - t as int <= i64::MAX,
    ensures
        (r is Some) == has_required_data(*config, datapoint),
        r matches Some(rec) ==> {
            &&& rec.t == t
            &&& rec.dt == now as int - t as int
            &&& now >= t ==> rec.dt >= 0
            &&& (rec.landmarks is Some) == config.landmarks
            &&& (rec.landmarks matches Some(ls) ==> datapoint.face_landmarks matches Some(sets)
                && compacted_landmarks(sets@, config.strip_z_coordinates, ls@))
            &&& (rec.blendshapes is Some) == config.blendshapes
            &&& (rec.blendshapes matches Some(bs) ==> datapoint.face_blendshapes matches Some(
                groups,
            ) && compacted_blendshapes(groups@, vocab.entries@, bs@))
            &&& (rec.matrices is Some) == (config.face_transformation
                && datapoint.facial_transformation_matrixes is Some)
            &&& (rec.matrices matches Some(mo) ==> datapoint.facial_transformation_matrixes
                matches Some(ms) && mo@.len() == ms@.len() && forall|j: int|
                0 <= j < ms@.len() ==> mo@[j] == (#[trigger] ms@[j]).data)
            &&& rec.wf()
        },
{
    let FaceLandmarkerResult { face_landmarks, facial_transformation_matrixes, face_blendshapes } =
        datapoint;

    // Pose matrices are required only when the pose transform is
    // requested; when requested and absent the whole call aborts.
    let mut result_matrix: Option<Vec<Vec<String>>> = None;
    if config.face_transformation {
        match facial_transformation_matrixes {
            Some(ms) => {
                let ghost ms_view = ms@;
                let mo = compact_matrices(ms);
                proof {
                    assert(matrices_wf(ms_view));
                    assert forall|i: int, j: int|
                        0 <= i < mo@.len() && 0 <= j < mo@[i]@.len() implies is_number_token(
                        #[trigger] mo@[i]@[j]@,
                    ) by {
                        assert(mo@[i] == ms_view[i].data);
                        assert(ms_view[i].wf());
                    }
                }
                result_matrix = Some(mo);
            },
            None => {
                return None;
            },
        }
    }

    // Landmark sets must exist upstream before anything is emitted, even
    // when landmarks are not requested.
    let sets = match face_landmarks {
        Some(sets) => sets,
        None => {
            return None;
        },
    };
    let result_landmarks = if config.landmarks {
        Some(compact_landmarks(&sets, config.strip_z_coordinates))
    } else {
        None
    };

    // The same all-or-nothing rule holds for classification groups.
    let groups = match face_blendshapes {
        Some(groups) => groups,
        None => {
            return None;
        },
    };
    let result_blendshapes = if config.blendshapes {
        Some(compact_classifications(&groups, vocab))
    } else {
        None
    };

    let dt = now - t;
    Some(
        CompressedFaceLandmarkerResult {
            landmarks: result_landmarks,
            blendshapes: result_blendshapes,
            matrices: result_matrix,
            t,
            dt,
        },
    )
}

} // verus!
