use cliptrans::errors::PlanError;
use cliptrans::request::{
    plan_deepl, plan_google_long, plan_google_short, plan_request, RequestKind,
    DEFAULT_TIMEOUT_SECS,
};

#[test]
fn text_with_space_takes_long_mode() {
    let q = plan_request("google", "en", "zh-CN", "hello world", "null", "null", 60).unwrap();
    assert_eq!(q.kind, RequestKind::GoogleLong);
}

#[test]
fn text_without_space_takes_short_mode() {
    let q = plan_request("google", "en", "zh-CN", "hello", "null", "null", 60).unwrap();
    assert_eq!(q.kind, RequestKind::GoogleShort);
}

#[test]
fn long_mode_url_is_exact() {
    let q = plan_google_long("en", "zh-CN", "et al. said", "null", 60);
    assert_eq!(
        q.url,
        "https://translate.googleapis.com/translate_a/single?client=gtx&sl=en&tl=zh-CN&dt=t&q=et al said"
    );
    assert!(q.body.is_none());
    assert!(q.auth_header.is_none());
    assert!(q.proxy.is_none());
    assert_eq!(q.timeout_secs, 60);
}

#[test]
fn short_mode_url_is_exact() {
    let q = plan_google_short("en", "zh-CN", "hello!", "null", 60);
    assert_eq!(
        q.url,
        "https://translate.googleapis.com/translate_a/single?client=gtx&sl=en&tl=zh-CN&dj=1&dt=t&dt=bd&dt=qc&dt=rm&dt=ex&dt=at&dt=ss&dt=rw&dt=ld&q=hello&button&tk=233819.233819"
    );
}

#[test]
fn deepl_body_and_auth_are_exact() {
    let q = plan_deepl("EN", "ZH", "et al. said!", "null", "k-123", false, 60).unwrap();
    assert_eq!(q.kind, RequestKind::DeeplFree);
    assert_eq!(q.url, "https://api-free.deepl.com/v2/translate");
    assert_eq!(
        q.body.as_deref(),
        Some("text=et al said&source_lang=EN&target_lang=ZH&split_sentences=1")
    );
    assert_eq!(q.auth_header.as_deref(), Some("DeepL-Auth-Key k-123"));
}

#[test]
fn deepl_pro_uses_paid_host() {
    let q = plan_request("deeplpro", "EN", "ZH", "hello", "null", "k-123", 60).unwrap();
    assert_eq!(q.kind, RequestKind::DeeplPro);
    assert_eq!(q.url, "https://api.deepl.com/v2/translate");
    let q = plan_request("deepl", "EN", "ZH", "hello", "null", "k-123", 60).unwrap();
    assert_eq!(q.kind, RequestKind::DeeplFree);
    assert_eq!(q.url, "https://api-free.deepl.com/v2/translate");
}

#[test]
fn missing_credential_fails_before_any_call() {
    // a transport stub counts the requests it is handed; a failed plan hands it none
    let mut sends: u32 = 0;
    let planned = plan_request("deepl", "EN", "ZH", "hello", "null", "null", 60);
    if planned.is_ok() {
        sends += 1;
    }
    assert_eq!(sends, 0);
    assert_eq!(planned.unwrap_err(), PlanError::EmptyAuthKey);
    let planned = plan_request("deeplpro", "EN", "ZH", "hello", "null", "", 60);
    assert_eq!(planned.unwrap_err(), PlanError::EmptyAuthKey);
}

#[test]
fn unknown_provider_refused_at_planning() {
    let planned = plan_request("bing", "en", "zh-CN", "hello", "null", "null", 60);
    assert_eq!(planned.unwrap_err(), PlanError::UnsupportedApi);
}

#[test]
fn proxy_kept_unless_null() {
    let q = plan_google_long("en", "de", "x y", "socks5://192.168.1.1:9000", 60);
    assert_eq!(q.proxy.as_deref(), Some("socks5://192.168.1.1:9000"));
    let q = plan_google_long("en", "de", "x y", "null", 60);
    assert!(q.proxy.is_none());
    let q = plan_google_long("en", "de", "x y", "", 60);
    assert!(q.proxy.is_none());
}

#[test]
fn default_timeout_is_one_minute() {
    assert_eq!(DEFAULT_TIMEOUT_SECS, 60);
}
