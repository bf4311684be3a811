use face_landmark::compact::compress_datapoint;
use face_landmark::model::{
    Category, Classifications, FaceLandmarkerResult, NormalizedLandmark,
    NormalizedLandmarkComponentConfig, TransformationMatrix,
};
use face_landmark::quant::{dequantize, quantize};
use face_landmark::vocab::Vocabulary;

fn config(
    face_transformation: bool,
    landmarks: bool,
    blendshapes: bool,
    strip_z_coordinates: bool,
) -> NormalizedLandmarkComponentConfig {
    NormalizedLandmarkComponentConfig {
        face_transformation,
        landmarks,
        blendshapes,
        strip_z_coordinates,
    }
}

fn landmark(x: i64, y: i64, z: Option<i64>) -> NormalizedLandmark {
    NormalizedLandmark { x, y, z }
}

fn one_face(points: Vec<NormalizedLandmark>) -> Option<Vec<Vec<NormalizedLandmark>>> {
    Some(vec![points])
}

fn one_group(categories: Vec<Category>) -> Option<Vec<Classifications>> {
    Some(vec![Classifications { categories }])
}

fn one_matrix(entries: Vec<&str>) -> Option<Vec<TransformationMatrix>> {
    Some(vec![TransformationMatrix {
        data: entries.into_iter().map(|e| e.to_string()).collect(),
    }])
}

fn category(score: i64, index: i32, name: &str) -> Category {
    Category {
        score,
        index,
        category_name: name.to_string(),
    }
}

#[test]
fn quantize_scales_and_rounds() {
    // 0.12345 in fine units (1e7 per unit) quantizes to 12345.
    assert_eq!(quantize(1234500), 12345);
    assert_eq!(quantize(6789000), 67890);
    assert_eq!(quantize(1000000), 10000);
    assert_eq!(quantize(0), 0);
}

#[test]
fn quantize_rounds_ties_away_from_zero() {
    assert_eq!(quantize(50), 1);
    assert_eq!(quantize(49), 0);
    assert_eq!(quantize(150), 2);
    assert_eq!(quantize(-50), -1);
    assert_eq!(quantize(-49), 0);
    assert_eq!(quantize(-150), -2);
}

#[test]
fn dequantize_scales_back() {
    assert_eq!(dequantize(12345), 1234500);
    assert_eq!(dequantize(-7), -700);
    assert_eq!(dequantize(0), 0);
}

#[test]
fn quantize_round_trip_error_is_bounded() {
    for v in [
        -10000000i64,
        -9876543,
        -151,
        -150,
        -50,
        -1,
        0,
        1,
        49,
        50,
        1234500,
        9876540,
        10000000,
    ] {
        let back = dequantize(quantize(v));
        assert!((back - v).abs() <= 50, "round trip of {v} gave {back}");
    }
}

#[test]
fn vocabulary_falls_back_to_index() {
    let vocab = Vocabulary::empty();
    assert_eq!(vocab.resolve(&"smile".to_string(), 3), 3);
}

#[test]
fn vocabulary_resolves_known_names() {
    let vocab = Vocabulary::with_entries(vec![
        ("smile".to_string(), 42),
        ("frown".to_string(), 7),
    ]);
    assert_eq!(vocab.resolve(&"smile".to_string(), 3), 42);
    assert_eq!(vocab.resolve(&"frown".to_string(), 3), 7);
    assert_eq!(vocab.resolve(&"wink".to_string(), 3), 3);
}

#[test]
fn landmarks_only_with_stripped_z() {
    // One face with one landmark (0.12345, 0.6789, 0.1); matrices and
    // classifications present but unrequested.
    let cfg = config(false, true, false, true);
    let datapoint = FaceLandmarkerResult {
        face_landmarks: one_face(vec![landmark(1234500, 6789000, Some(1000000))]),
        facial_transformation_matrixes: one_matrix(vec!["1.0"]),
        face_blendshapes: one_group(vec![category(9876540, 3, "smile")]),
    };
    let rec = compress_datapoint(&cfg, datapoint, &Vocabulary::empty(), 100, 105).unwrap();
    let ls = rec.landmarks.as_ref().unwrap();
    assert_eq!(ls.len(), 1);
    assert_eq!(ls[0].p, vec![12345, 67890]);
    assert!(!ls[0].z);
    assert!(rec.blendshapes.is_none());
    assert!(rec.matrices.is_none());
    assert_eq!(rec.t, 100);
    assert_eq!(rec.dt, 5);
}

#[test]
fn z_retained_when_not_stripped() {
    let cfg = config(false, true, false, false);
    let datapoint = FaceLandmarkerResult {
        face_landmarks: one_face(vec![
            landmark(1234500, 6789000, Some(1000000)),
            landmark(0, -500000, None),
        ]),
        facial_transformation_matrixes: None,
        face_blendshapes: one_group(vec![]),
    };
    let rec = compress_datapoint(&cfg, datapoint, &Vocabulary::empty(), 0, 0).unwrap();
    let ls = rec.landmarks.as_ref().unwrap();
    // x, y, z for the first landmark; the second has no z to include.
    assert_eq!(ls[0].p, vec![12345, 67890, 10000, 0, -5000]);
    assert!(ls[0].z);
}

#[test]
fn requested_matrices_missing_yields_no_data() {
    let cfg = config(true, false, false, false);
    let datapoint = FaceLandmarkerResult {
        face_landmarks: one_face(vec![]),
        facial_transformation_matrixes: None,
        face_blendshapes: one_group(vec![]),
    };
    assert!(compress_datapoint(&cfg, datapoint, &Vocabulary::empty(), 0, 0).is_none());
}

#[test]
fn absent_landmarks_yield_no_data_regardless_of_config() {
    // Only classifications are requested, yet absent landmark sets still
    // abort the call.
    let cfg = config(false, false, true, false);
    let datapoint = FaceLandmarkerResult {
        face_landmarks: None,
        facial_transformation_matrixes: one_matrix(vec!["1.0"]),
        face_blendshapes: one_group(vec![category(9876540, 3, "smile")]),
    };
    assert!(compress_datapoint(&cfg, datapoint, &Vocabulary::empty(), 0, 0).is_none());
}

#[test]
fn absent_blendshapes_yield_no_data_regardless_of_config() {
    let cfg = config(false, true, false, true);
    let datapoint = FaceLandmarkerResult {
        face_landmarks: one_face(vec![landmark(0, 0, None)]),
        facial_transformation_matrixes: one_matrix(vec!["1.0"]),
        face_blendshapes: None,
    };
    assert!(compress_datapoint(&cfg, datapoint, &Vocabulary::empty(), 0, 0).is_none());
}

#[test]
fn classifications_fall_back_to_index() {
    let cfg = config(false, false, true, false);
    let datapoint = FaceLandmarkerResult {
        face_landmarks: one_face(vec![]),
        facial_transformation_matrixes: None,
        face_blendshapes: one_group(vec![category(9876540, 3, "smile")]),
    };
    let rec = compress_datapoint(&cfg, datapoint, &Vocabulary::empty(), 0, 0).unwrap();
    let bs = rec.blendshapes.as_ref().unwrap();
    assert_eq!(bs.len(), 1);
    assert_eq!(bs[0].s, vec![98765]);
    assert_eq!(bs[0].i, vec![3]);
    assert_eq!(bs[0].c, vec![3]);
}

#[test]
fn classifications_use_vocabulary_when_known() {
    let cfg = config(false, false, true, false);
    let datapoint = FaceLandmarkerResult {
        face_landmarks: one_face(vec![]),
        facial_transformation_matrixes: None,
        face_blendshapes: one_group(vec![
            category(9876540, 3, "smile"),
            category(100, 4, "wink"),
        ]),
    };
    let vocab = Vocabulary::with_entries(vec![("smile".to_string(), 42)]);
    let rec = compress_datapoint(&cfg, datapoint, &vocab, 0, 0).unwrap();
    let bs = rec.blendshapes.as_ref().unwrap();
    assert_eq!(bs[0].s, vec![98765, 1]);
    assert_eq!(bs[0].i, vec![3, 4]);
    assert_eq!(bs[0].c, vec![42, 4]);
}

#[test]
fn matrices_pass_through_unmodified() {
    let cfg = config(true, false, false, false);
    let entries = vec!["0.99988", "-1.25e-3", "16.0"];
    let datapoint = FaceLandmarkerResult {
        face_landmarks: one_face(vec![]),
        facial_transformation_matrixes: one_matrix(entries.clone()),
        face_blendshapes: one_group(vec![]),
    };
    let rec = compress_datapoint(&cfg, datapoint, &Vocabulary::empty(), 0, 0).unwrap();
    let ms = rec.matrices.as_ref().unwrap();
    assert_eq!(ms.len(), 1);
    assert_eq!(ms[0], entries);
}

#[test]
fn unset_flags_omit_components_without_aborting() {
    // Everything is present upstream, nothing is requested: a record is
    // still emitted, carrying only the timing fields.
    let cfg = config(false, false, false, false);
    let datapoint = FaceLandmarkerResult {
        face_landmarks: one_face(vec![landmark(1, 2, None)]),
        facial_transformation_matrixes: one_matrix(vec!["1.0"]),
        face_blendshapes: one_group(vec![category(0, 0, "neutral")]),
    };
    let rec = compress_datapoint(&cfg, datapoint, &Vocabulary::empty(), 10, 30).unwrap();
    assert!(rec.landmarks.is_none());
    assert!(rec.blendshapes.is_none());
    assert!(rec.matrices.is_none());
    assert_eq!(rec.t, 10);
    assert_eq!(rec.dt, 20);
}

#[test]
fn latency_is_now_minus_timestamp() {
    let cfg = config(false, false, false, false);
    let datapoint = FaceLandmarkerResult {
        face_landmarks: one_face(vec![]),
        facial_transformation_matrixes: None,
        face_blendshapes: one_group(vec![]),
    };
    let rec = compress_datapoint(&cfg, datapoint, &Vocabulary::empty(), 1000, 1234).unwrap();
    assert_eq!(rec.dt, 1234 - rec.t);
    assert!(rec.dt >= 0);
}
