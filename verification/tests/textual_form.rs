use face_landmark::compact::compress_datapoint;
use face_landmark::encode::to_json;
use face_landmark::model::{
    Category, Classifications, CompressedFaceLandmarkerResult, FaceLandmarkerResult,
    NormalizedLandmark, NormalizedLandmarkComponentConfig, TransformationMatrix,
};
use face_landmark::vocab::Vocabulary;

fn full_datapoint() -> FaceLandmarkerResult {
    FaceLandmarkerResult {
        face_landmarks: Some(vec![vec![NormalizedLandmark {
            x: 1234500,
            y: 6789000,
            z: Some(1000000),
        }]]),
        facial_transformation_matrixes: Some(vec![TransformationMatrix {
            data: vec!["0.5".to_string(), "-1.25e-3".to_string()],
        }]),
        face_blendshapes: Some(vec![Classifications {
            categories: vec![Category {
                score: 9876540,
                index: 3,
                category_name: "smile".to_string(),
            }],
        }]),
    }
}

fn compress(cfg: &NormalizedLandmarkComponentConfig) -> CompressedFaceLandmarkerResult {
    compress_datapoint(cfg, full_datapoint(), &Vocabulary::empty(), 100, 105).unwrap()
}

#[test]
fn text_of_landmarks_only_record() {
    let cfg = NormalizedLandmarkComponentConfig {
        face_transformation: false,
        landmarks: true,
        blendshapes: false,
        strip_z_coordinates: true,
    };
    let rec = compress(&cfg);
    assert_eq!(
        to_json(&rec),
        "{\"l\":[{\"p\":[12345,67890],\"z\":false}],\"t\":100,\"dt\":5}\n"
    );
}

#[test]
fn text_of_full_record() {
    let cfg = NormalizedLandmarkComponentConfig {
        face_transformation: true,
        landmarks: true,
        blendshapes: true,
        strip_z_coordinates: false,
    };
    let rec = compress(&cfg);
    assert_eq!(
        to_json(&rec),
        "{\"l\":[{\"p\":[12345,67890,10000],\"z\":true}],\
         \"b\":[{\"s\":[98765],\"i\":[3],\"c\":[3]}],\
         \"m\":[[0.5,-1.25e-3]],\
         \"t\":100,\"dt\":5}\n"
    );
}

#[test]
fn text_of_timing_only_record() {
    let cfg = NormalizedLandmarkComponentConfig {
        face_transformation: false,
        landmarks: false,
        blendshapes: false,
        strip_z_coordinates: false,
    };
    let rec = compress(&cfg);
    assert_eq!(to_json(&rec), "{\"t\":100,\"dt\":5}\n");
}

#[test]
fn text_renders_negative_values() {
    let rec = CompressedFaceLandmarkerResult {
        landmarks: None,
        blendshapes: None,
        matrices: None,
        t: -12,
        dt: -3,
    };
    assert_eq!(to_json(&rec), "{\"t\":-12,\"dt\":-3}\n");
}

#[test]
fn text_renders_extreme_timestamps() {
    let rec = CompressedFaceLandmarkerResult {
        landmarks: None,
        blendshapes: None,
        matrices: None,
        t: i64::MIN,
        dt: i64::MAX,
    };
    assert_eq!(
        to_json(&rec),
        "{\"t\":-9223372036854775808,\"dt\":9223372036854775807}\n"
    );
}

#[test]
fn text_ends_with_exactly_one_line_separator() {
    let cfg = NormalizedLandmarkComponentConfig {
        face_transformation: true,
        landmarks: true,
        blendshapes: true,
        strip_z_coordinates: false,
    };
    let text = to_json(&compress(&cfg));
    assert!(text.ends_with('\n'));
    assert_eq!(text.matches('\n').count(), 1);
}

#[test]
fn text_is_valid_json_with_expected_fields() {
    let cfg = NormalizedLandmarkComponentConfig {
        face_transformation: true,
        landmarks: true,
        blendshapes: true,
        strip_z_coordinates: false,
    };
    let text = to_json(&compress(&cfg));
    let value: serde_json::Value = serde_json::from_str(&text).unwrap();
    assert_eq!(value["t"].as_i64(), Some(100));
    assert_eq!(value["dt"].as_i64(), Some(5));
    assert_eq!(value["l"][0]["z"].as_bool(), Some(true));
    assert_eq!(value["l"][0]["p"][0].as_i64(), Some(12345));
    assert_eq!(value["b"][0]["s"][0].as_i64(), Some(98765));
    assert_eq!(value["m"][0][0].as_f64(), Some(0.5));
    assert_eq!(value["m"][0][1].as_f64(), Some(-0.00125));
}
