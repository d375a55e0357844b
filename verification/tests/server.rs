use hoo::server::{next_path_component, AnimationQuery, HooResponse};

#[test]
fn simple_path() {
    let path = "/one/two/three";

    let (one, rest) = next_path_component(path).unwrap();
    assert_eq!(one, "one");

    let (two, rest) = next_path_component(rest).unwrap();
    assert_eq!(two, "two");

    let (three, rest) = next_path_component(rest).unwrap();
    assert_eq!(three, "three");

    assert_eq!(rest, "");

    let done = next_path_component(rest);
    assert_eq!(done, None);
}

#[test]
fn empty_path() {
    let path = "";
    let result = next_path_component(path);
    assert_eq!(result, None);
}

#[test]
fn just_slash() {
    let path = "/";
    let result = next_path_component(path);
    assert_eq!(result, None);
}

#[test]
fn double_slashes_are_skipped() {
    let (one, rest) = next_path_component("//one//two").unwrap();
    assert_eq!(one, "one");
    let (two, rest) = next_path_component(rest).unwrap();
    assert_eq!(two, "two");
    assert_eq!(rest, "");
}

#[test]
fn light_vec_parses_numbers() {
    let query = AnimationQuery { lights: "1,2,3".to_string(), hues: None };
    assert_eq!(query.light_vec(), vec![1u8, 2, 3]);
}

#[test]
fn light_vec_drops_invalid_pieces() {
    let query = AnimationQuery { lights: "1,abc,300,,4".to_string(), hues: None };
    assert_eq!(query.light_vec(), vec![1u8, 4]);
}

#[test]
fn light_vec_empty_string_is_empty() {
    let query = AnimationQuery { lights: "".to_string(), hues: None };
    assert_eq!(query.light_vec(), Vec::<u8>::new());
}

#[test]
fn light_vec_accepts_boundary_value() {
    let query = AnimationQuery { lights: "0,255,256".to_string(), hues: None };
    assert_eq!(query.light_vec(), vec![0u8, 255]);
}

#[test]
fn hue_vec_none_without_hues() {
    let query = AnimationQuery { lights: "1".to_string(), hues: None };
    assert_eq!(query.hue_vec(), None);
}

#[test]
fn hue_vec_parses_numbers() {
    let query = AnimationQuery {
        lights: "1".to_string(),
        hues: Some("0,35000,65535,65536".to_string()),
    };
    assert_eq!(query.hue_vec(), Some(vec![0u16, 35000, 65535]));
}

#[test]
fn response_default_message() {
    let response = HooResponse::default();
    assert_eq!(response.message, "success");
}
