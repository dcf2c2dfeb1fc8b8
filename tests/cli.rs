use request::cli::{echo_model, is_ext, is_json_type, split_pair, ext_matches, Args, BodyKind, Subslice};
use std::path::PathBuf;

fn args() -> Args {
    Args {
        url: "http://localhost".to_string(),
        query: vec![],
        header: vec![],
        body: vec![],
        json: vec![],
        json_file: None,
        form: vec![],
        output: None,
        timeout: 20,
        show: "0001".to_string(),
    }
}

#[test]
fn echo_model_reads_flags() {
    assert_eq!(echo_model("0001".to_string()), Some(['0', '0', '0', '1']));
    assert_eq!(echo_model("1111".to_string()), Some(['1', '1', '1', '1']));
    assert_eq!(echo_model("1".to_string()), Some(['1', '0', '0', '0']));
    assert_eq!(echo_model("".to_string()), Some(['0', '0', '0', '0']));
    assert_eq!(echo_model("0101x".to_string()), Some(['0', '1', '0', '1']));
}

#[test]
fn echo_model_rejects_other_characters() {
    assert_eq!(echo_model("0201".to_string()), None);
    assert_eq!(echo_model("a".to_string()), None);
}

#[test]
fn split_pair_at_first_equals() {
    assert_eq!(split_pair("name=zs"), Some(("name".to_string(), "zs".to_string())));
    assert_eq!(split_pair("a=b=c"), Some(("a".to_string(), "b=c".to_string())));
    assert_eq!(split_pair("=x"), Some(("".to_string(), "x".to_string())));
    assert_eq!(split_pair("k="), Some(("k".to_string(), "".to_string())));
    assert_eq!(split_pair("novalue"), None);
}

#[test]
fn is_ext_compares_lowercased_extension() {
    assert!(is_ext(&PathBuf::from("data.json"), "json"));
    assert!(is_ext(&PathBuf::from("dir/DATA.JSON"), "json"));
    assert!(!is_ext(&PathBuf::from("data.txt"), "json"));
    assert!(!is_ext(&PathBuf::from("json"), "json"));
    assert!(!is_ext(&PathBuf::from(".json"), "json"));
}

#[test]
fn ext_matches_lowercases() {
    assert!(ext_matches(&Some("Json".to_string()), "json"));
    assert!(!ext_matches(&Some("jsonl".to_string()), "json"));
    assert!(!ext_matches(&None, "json"));
}

#[test]
fn subslice_search() {
    let hay: &[u8] = b"application/json; charset=utf-8";
    assert!(hay.has_subslice(b"json"));
    assert!(!hay.has_subslice(b"xml"));
    let tricky: &[u8] = b"jjson";
    assert!(tricky.has_subslice(b"json"));
    let short: &[u8] = b"js";
    assert!(!short.has_subslice(b"json"));
    assert!(short.has_subslice(b""));
}

#[test]
fn json_content_type() {
    assert!(is_json_type(b"application/json"));
    assert!(is_json_type(b"application/problem+json"));
    assert!(!is_json_type(b"text/html"));
    assert!(!is_json_type(b""));
}

#[test]
fn body_kind_takes_first_form_given() {
    let mut a = args();
    assert_eq!(a.body_kind(), BodyKind::Empty);
    a.json_file = Some(PathBuf::from("x.json"));
    assert_eq!(a.body_kind(), BodyKind::JsonFile);
    a.form = vec!["a=1".to_string()];
    assert_eq!(a.body_kind(), BodyKind::Form);
    a.json = vec!["b=2".to_string()];
    assert_eq!(a.body_kind(), BodyKind::Json);
    a.body = vec!["raw".to_string()];
    assert_eq!(a.body_kind(), BodyKind::Raw);
}

#[test]
fn raw_body_joins_parts() {
    let mut a = args();
    assert_eq!(a.raw_body(), "");
    a.body = vec!["ab".to_string(), "c".to_string(), "".to_string(), "d".to_string()];
    assert_eq!(a.raw_body(), "abcd");
}
