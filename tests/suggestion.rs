use sefr::suggestion::{json_path_suggestions, open_search_suggestions, Json};
use sefr::{read_suggestions, AdapterError, JsonPathAdapter, OpenSearchAdapter, SuggestionAdapter, SuggestionAdapterName};

#[test]
fn open_search_response() {
    let body = r#"["cat", ["cats", "cat videos", "catan"], [], {"x": 1}]"#;
    let s = OpenSearchAdapter.get(body, "ca").ok().unwrap();
    assert_eq!(s.term, "cat");
    assert_eq!(s.sugg_terms, vec!["cats", "cat videos", "catan"]);
}

#[test]
fn open_search_errors() {
    let err = |body: &str| OpenSearchAdapter.get(body, "t").err().unwrap();
    assert_eq!(err("not json"), AdapterError::InvalidJson);
    assert_eq!(err(r#"{"a": 1}"#), AdapterError::MissingTerm);
    assert_eq!(err(r#"[1, ["a"]]"#), AdapterError::MissingTerm);
    assert_eq!(err(r#"["t"]"#), AdapterError::NotAnArray);
    assert_eq!(err(r#"["t", {"a": "b"}]"#), AdapterError::NotAnArray);
    assert_eq!(err(r#"["t", ["a", 2]]"#), AdapterError::NonStringCandidate);
}

#[test]
fn json_path_response() {
    let body = r#"{"data": {"items": ["aww", "awwducational"], "n": 2}}"#;
    let a = JsonPathAdapter("data.items".to_string());
    let s = a.get(body, "aw").ok().unwrap();
    assert_eq!(s.term, "aw");
    assert_eq!(s.sugg_terms, vec!["aww", "awwducational"]);
    let r = read_suggestions(&SuggestionAdapterName::JsonPath("data.items".to_string()), body, "aw");
    assert_eq!(r.ok().unwrap().sugg_terms.len(), 2);
}

#[test]
fn json_path_errors() {
    let body = r#"{"data": {"items": ["a", null], "n": 2}}"#;
    let err = |path: &str| JsonPathAdapter(path.to_string()).get(body, "t").err().unwrap();
    assert_eq!(err("data.items"), AdapterError::NonStringCandidate);
    assert_eq!(err("data.n"), AdapterError::NotAnArray);
    assert_eq!(err("data.missing"), AdapterError::NotAnArray);
    assert_eq!(err("data..items"), AdapterError::NotAnArray);
    assert_eq!(JsonPathAdapter("x".to_string()).get("{", "t").err().unwrap(), AdapterError::InvalidJson);
}

#[test]
fn documents_built_by_hand() {
    let doc = Json::Array(vec![
        Json::Str("q".to_string()),
        Json::Array(vec![Json::Str("q1".to_string())]),
    ]);
    let s = open_search_suggestions(&doc).ok().unwrap();
    assert_eq!(s.term, "q");
    assert_eq!(s.sugg_terms, vec!["q1"]);
    let doc = Json::Object(vec![
        ("a".to_string(), Json::Object(vec![("".to_string(), Json::Array(vec![]))])),
    ]);
    let s = json_path_suggestions(&doc, "a.", "t").ok().unwrap();
    assert!(s.sugg_terms.is_empty());
    assert_eq!(json_path_suggestions(&Json::Null, "", "t").err().unwrap(), AdapterError::NotAnArray);
}
