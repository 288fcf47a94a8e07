use cliptrans::errors::{DeepLEmptyAuthKeyError, PlanError, UnsupportApiError, UnsupportOsError};
use cliptrans::response::{
    normalize_array, normalize_deepl, normalize_object, ArrayCandidate, ArrayShapeResponse,
    DeepLResponse, ObjectShapeResponse, SentenceEntry, TranslateResult, TranslateResults,
    Translation, MAX_ARRAY_CANDIDATES,
};

fn cand(t: Option<&str>, o: Option<&str>) -> ArrayCandidate {
    ArrayCandidate {
        trans: t.map(|s| s.to_string()),
        orig: o.map(|s| s.to_string()),
    }
}

fn sentence(t: Option<&str>, o: Option<&str>) -> SentenceEntry {
    SentenceEntry {
        trans: t.map(|s| s.to_string()),
        orig: o.map(|s| s.to_string()),
    }
}

#[test]
fn array_fixture_yields_one_record() {
    // the array-shape fixture [[["你好","hello",null,null,10]]], with the
    // string fields as the boundary renders them
    let resp = ArrayShapeResponse {
        candidates: vec![cand(Some("\"\u{4F60}\u{597D}\""), Some("\"hello\""))],
    };
    let r = normalize_array(&resp);
    assert_eq!(r.len(), 1);
    assert_eq!(r[0].trans, "\u{4F60}\u{597D}");
    assert_eq!(r[0].orig, "hello");
    assert!(r[0].alter.is_empty());
}

#[test]
fn walk_stops_at_null_sentinel() {
    let resp = ArrayShapeResponse {
        candidates: vec![
            cand(Some("\"a\""), Some("\"b\"")),
            cand(None, None),
            cand(Some("\"c\""), Some("\"d\"")),
        ],
    };
    let r = normalize_array(&resp);
    assert_eq!(r.len(), 1);
    assert_eq!(r[0].trans, "a");
}

#[test]
fn walk_never_exceeds_cap() {
    let mut candidates = Vec::new();
    for _ in 0..150 {
        candidates.push(cand(Some("\"x\""), Some("\"y\"")));
    }
    let r = normalize_array(&ArrayShapeResponse { candidates });
    assert_eq!(r.len(), MAX_ARRAY_CANDIDATES);
    assert_eq!(r.len(), 100);
}

#[test]
fn bare_period_candidates_are_discarded() {
    let resp = ArrayShapeResponse {
        candidates: vec![
            cand(Some("\"a\""), Some("\"b\"")),
            cand(Some("\".\""), Some("\".\"")),
            cand(Some("\"c\""), Some("\"d\"")),
        ],
    };
    let r = normalize_array(&resp);
    assert_eq!(r.len(), 2);
    assert_eq!(r[0].trans, "a");
    assert_eq!(r[1].trans, "c");
}

#[test]
fn null_original_span_renders_as_word() {
    let resp = ArrayShapeResponse {
        candidates: vec![cand(Some("\"a\""), None)],
    };
    let r = normalize_array(&resp);
    assert_eq!(r.len(), 1);
    assert_eq!(r[0].orig, "null");
}

#[test]
fn empty_candidate_list_yields_no_records() {
    let r = normalize_array(&ArrayShapeResponse { candidates: vec![] });
    assert!(r.is_empty());
}

#[test]
fn first_alternative_is_excluded() {
    let resp = ObjectShapeResponse {
        sentences: vec![sentence(Some("\"\u{8FD9}\""), Some("\"The\""))],
        alternatives: Some(vec![
            "\"\u{8FD9}\"".to_string(),
            "\"\u{8BE5}\"".to_string(),
            "\"\u{90A3}\u{4E2A}\"".to_string(),
        ]),
    };
    let r = normalize_object(&resp).unwrap();
    assert_eq!(r.len(), 1);
    assert_eq!(r[0].trans, "\u{8FD9}");
    assert_eq!(r[0].orig, "The");
    assert_eq!(
        r[0].alter,
        vec!["\u{8BE5}".to_string(), "\u{90A3}\u{4E2A}".to_string()]
    );
    assert!(!r[0].alter.contains(&r[0].trans));
}

#[test]
fn empty_alternative_list_gives_no_alternates() {
    let resp = ObjectShapeResponse {
        sentences: vec![sentence(Some("\"a\""), Some("\"b\""))],
        alternatives: Some(vec![]),
    };
    let r = normalize_object(&resp).unwrap();
    assert_eq!(r.len(), 1);
    assert!(r[0].alter.is_empty());
}

#[test]
fn empty_sentences_is_malformed() {
    let resp = ObjectShapeResponse {
        sentences: vec![],
        alternatives: Some(vec![]),
    };
    assert!(normalize_object(&resp).is_err());
}

#[test]
fn sentence_without_spans_is_malformed() {
    let resp = ObjectShapeResponse {
        sentences: vec![sentence(None, Some("\"b\""))],
        alternatives: Some(vec![]),
    };
    assert!(normalize_object(&resp).is_err());
    let resp = ObjectShapeResponse {
        sentences: vec![sentence(Some("\"a\""), None)],
        alternatives: Some(vec![]),
    };
    assert!(normalize_object(&resp).is_err());
}

#[test]
fn missing_alternative_entry_is_malformed() {
    let resp = ObjectShapeResponse {
        sentences: vec![sentence(Some("\"a\""), Some("\"b\""))],
        alternatives: None,
    };
    assert!(normalize_object(&resp).is_err());
}

#[test]
fn commercial_response_yields_record_per_translation() {
    let resp = DeepLResponse {
        translations: vec![
            Translation {
                detected_source_language: "EN".to_string(),
                text: "\u{4F60}\u{597D}".to_string(),
            },
            Translation {
                detected_source_language: "EN".to_string(),
                text: "\u{4E16}\u{754C}".to_string(),
            },
        ],
    };
    let r = normalize_deepl(&resp, "hello world");
    assert_eq!(r.len(), 2);
    assert_eq!(r[0].trans, "\u{4F60}\u{597D}");
    assert_eq!(r[0].orig, "hello world");
    assert!(r[0].alter.is_empty());
    assert_eq!(r[1].trans, "\u{4E16}\u{754C}");
    assert_eq!(r[1].orig, "hello world");
}

#[test]
fn joined_lines_concatenate_in_order() {
    let results = vec![
        TranslateResult {
            orig: "a".to_string(),
            trans: "A".to_string(),
            alter: vec!["x".to_string(), "y".to_string()],
        },
        TranslateResult {
            orig: "b".to_string(),
            trans: "B".to_string(),
            alter: vec!["z".to_string()],
        },
    ];
    let trets = TranslateResults {
        results,
        proxy: "null".to_string(),
        theme: "light".to_string(),
        elapsed_ms: 12,
        index: 1,
    };
    let (o, t, a) = trets.join_lines();
    assert_eq!(o, "ab");
    assert_eq!(t, "AB");
    assert_eq!(a, "xyz");
}

#[test]
fn error_messages_match_the_source_wording() {
    assert_eq!(UnsupportApiError.message(), "unsupported api");
    assert_eq!(UnsupportOsError.message(), "unsupported os");
    assert_eq!(
        DeepLEmptyAuthKeyError.message(),
        "please privode a deepl auth key"
    );
    assert_eq!(
        PlanError::EmptyAuthKey.message(),
        "please privode a deepl auth key"
    );
    assert_eq!(PlanError::UnsupportedApi.message(), "unsupported api");
}
