//! Request planning: which provider endpoint a translation attempt calls,
//! with which URL, body, headers, proxy and timeout.
//!
//! Planning is pure: it yields an [`OutboundRequest`] value that the unverified
//! transport layer executes. A credential failure is therefore established
//! before any network call can exist.

use vstd::prelude::*;

use crate::errors::{DeepLEmptyAuthKeyError, PlanError};
use crate::lang::{is_deepl_api, is_google_api};
use crate::text::{contains_space, fliter_long, fliter_short, long_sanitized, short_sanitized, str_eq};

verus! {

/// The default request timeout, in seconds.
pub const DEFAULT_TIMEOUT_SECS: u64 = 60;

/// The provider/mode combination a request is aimed at.
#[derive(Debug, Clone, Copy, PartialEq, Eq, Structural)]
pub enum RequestKind {
    /// Sentence endpoint, lightweight single-field response (array shape).
    GoogleLong,
    /// Sentence endpoint, extended multi-field response (object shape).
    GoogleShort,
    /// Commercial API, free tier.
    DeeplFree,
    /// Commercial API, paid tier.
    DeeplPro,
}

/// One planned HTTP request, ready for the transport layer to execute.
/// `body` and `auth_header` are set exactly for the commercial provider;
/// `proxy` of `None` means a direct connection.
#[derive(Debug)]
pub struct OutboundRequest {
    pub kind: RequestKind,
    pub url: String,
    pub body: Option<String>,
    pub auth_header: Option<String>,
    pub proxy: Option<String>,
    pub timeout_secs: u64,
}

/// The sentence endpoint's URL for long mode: single `dt=t` field, text
/// sanitized by the long-mode rule.
pub open spec fn google_long_url(sl: Seq<char>, tl: Seq<char>, text: Seq<char>) -> Seq<char> {
    "https://translate.googleapis.com/translate_a/single?client=gtx&sl="@ + sl + "&tl="@ + tl
        + "&dt=t&q="@ + long_sanitized(text)
}

/// The sentence endpoint's URL for short mode: `dj=1` plus the extended `dt`
/// fields that carry alternate-translation data, text sanitized by the
/// short-mode rule.
pub open spec fn google_short_url(sl: Seq<char>, tl: Seq<char>, text: Seq<char>) -> Seq<char> {
    "https://translate.googleapis.com/translate_a/single?client=gtx&sl="@ + sl + "&tl="@ + tl
        + "&dj=1&dt=t&dt=bd&dt=qc&dt=rm&dt=ex&dt=at&dt=ss&dt=rw&dt=ld&q="@ + short_sanitized(text)
        + "&button&tk=233819.233819"@
}

/// The commercial provider applies both sanitization rules, long then short.
pub open spec fn deepl_sanitized(text: Seq<char>) -> Seq<char> {
    short_sanitized(long_sanitized(text))
}

/// The commercial provider's form-encoded POST body.
pub open spec fn deepl_body(sl: Seq<char>, tl: Seq<char>, text: Seq<char>) -> Seq<char> {
    "text="@ + deepl_sanitized(text) + "&source_lang="@ + sl + "&target_lang="@ + tl
        + "&split_sentences=1"@
}

/// The commercial provider's Authorization header value.
pub open spec fn deepl_auth_header(key: Seq<char>) -> Seq<char> {
    "DeepL-Auth-Key "@ + key
}

/// The free-tier base endpoint of the commercial provider.
pub open spec fn deepl_free_url() -> Seq<char> {
    "https://api-free.deepl.com/v2/translate"@
}

/// The paid-tier base endpoint of the commercial provider.
pub open spec fn deepl_pro_url() -> Seq<char> {
    "https://api.deepl.com/v2/translate"@
}

/// A credential is missing when it is absent or still the literal placeholder
/// sentinel.
pub open spec fn missing_auth_key(key: Seq<char>) -> bool {
    key == "null"@ || key.len() == 0
}

/// How a planned request's proxy field reflects the configured proxy string:
/// the literal "null" or an empty string means a direct connection, anything
/// else is kept.
pub open spec fn proxy_setting(r: Option<String>, p: Seq<char>) -> bool {
    if p == "null"@ || p.len() == 0 {
        r is None
    } else {
        r matches Some(u) && u@ == p
    }
}

/// Turn the configured proxy string into the planned request's proxy field.
fn proxy_choice(proxy: &str) -> (r: Option<String>)
    ensures
        proxy_setting(r, proxy@),
{
    if str_eq(proxy, "null") || proxy.unicode_len() == 0 {
        None
    } else {
        Some(String::from_str(proxy))
    }
}

/// Plan a long-mode request to the sentence endpoint.
pub fn plan_google_long(sl: &str, tl: &str, content: &str, proxy: &str, timeout_secs: u64) -> (r:
    OutboundRequest)
    ensures
        r.kind == RequestKind::GoogleLong,
        r.url@ == google_long_url(sl@, tl@, content@),
        r.body is None,
        r.auth_header is None,
        proxy_setting(r.proxy, proxy@),
        r.timeout_secs == timeout_secs,
{
    let mut url = String::from_str(
        "https://translate.googleapis.com/translate_a/single?client=gtx&sl=",
    );
    url.append(sl);
    url.append("&tl=");
    url.append(tl);
    url.append("&dt=t&q=");
    let sanitized = fliter_long(content);
    url.append(sanitized.as_str());
    OutboundRequest {
        kind: RequestKind::GoogleLong,
        url,
        body: None,
        auth_header: None,
        proxy: proxy_choice(proxy),
        timeout_secs,
    }
}

/// Plan a short-mode request to the sentence endpoint.
pub fn plan_google_short(sl: &str, tl: &str, content: &str, proxy: &str, timeout_secs: u64) -> (r:
    OutboundRequest)
    ensures
        r.kind == RequestKind::GoogleShort,
        r.url@ == google_short_url(sl@, tl@, content@),
        r.body is None,
        r.auth_header is None,
        proxy_setting(r.proxy, proxy@),
        r.timeout_secs == timeout_secs,
{
    let mut url = String::from_str(
        "https://translate.googleapis.com/translate_a/single?client=gtx&sl=",
    );
    url.append(sl);
    url.append("&tl=");
    url.append(tl);
    url.append("&dj=1&dt=t&dt=bd&dt=qc&dt=rm&dt=ex&dt=at&dt=ss&dt=rw&dt=ld&q=");
    let sanitized = fliter_short(content);
    url.append(sanitized.as_str());
    url.append("&button&tk=233819.233819");
    OutboundRequest {
        kind: RequestKind::GoogleShort,
        url,
        body: None,
        auth_header: None,
        proxy: proxy_choice(proxy),
        timeout_secs,
    }
}

/// Plan a request to the commercial provider; `pro` selects the paid tier.
/// Fails, before any request value exists, when the credential is missing.
pub fn plan_deepl(
    sl: &str,
    tl: &str,
    content: &str,
    proxy: &str,
    auth_key: &str,
    pro: bool,
    timeout_secs: u64,
) -> (r: Result<OutboundRequest, DeepLEmptyAuthKeyError>)
    ensures
        missing_auth_key(auth_key@) <==> r is Err,
        r matches Ok(q) ==> {
            &&& q.kind == (if pro {
                RequestKind::DeeplPro
            } else {
                RequestKind::DeeplFree
            })
            &&& q.url@ == (if pro {
                deepl_pro_url()
            } else {
                deepl_free_url()
            })
            &&& q.body matches Some(b) && b@ == deepl_body(sl@, tl@, content@)
            &&& q.auth_header matches Some(h) && h@ == deepl_auth_header(auth_key@)
            &&& proxy_setting(q.proxy, proxy@)
            &&& q.timeout_secs == timeout_secs
        },
{
    if str_eq(auth_key, "null") || auth_key.unicode_len() == 0 {
        return Err(DeepLEmptyAuthKeyError);
    }
    let url = if pro {
        String::from_str("https://api.deepl.com/v2/translate")
    } else {
        String::from_str("https://api-free.deepl.com/v2/translate")
    };
    let long_pass = fliter_long(content);
    let sanitized = fliter_short(long_pass.as_str());
    let mut body = String::from_str("text=");
    body.append(sanitized.as_str());
    body.append("&source_lang=");
    body.append(sl);
    body.append("&target_lang=");
    body.append(tl);
    body.append("&split_sentences=1");
    let mut auth = String::from_str("DeepL-Auth-Key ");
    auth.append(auth_key);
    Ok(
        OutboundRequest {
            kind: if pro {
                RequestKind::DeeplPro
            } else {
                RequestKind::DeeplFree
            },
            url,
            body: Some(body),
            auth_header: Some(auth),
            proxy: proxy_choice(proxy),
            timeout_secs,
        },
    )
}

/// Decide which provider/mode combination a translation attempt uses and
/// plan its request. The long/short split for the sentence endpoint is the
/// whitespace heuristic: text with a space is treated as a sentence, text
/// without one as a single word or phrase.
pub fn plan_request(
    api: &str,
    sl: &str,
    tl: &str,
    content: &str,
    proxy: &str,
    auth_key: &str,
    timeout_secs: u64,
) -> (r: Result<OutboundRequest, PlanError>)
    ensures
        (!is_google_api(api@) && !is_deepl_api(api@)) <==> (r matches Err(e) && e
            == PlanError::UnsupportedApi),
        (is_deepl_api(api@) && missing_auth_key(auth_key@)) <==> (r matches Err(e) && e
            == PlanError::EmptyAuthKey),
        is_google_api(api@) && content@.contains(' ') ==> (r matches Ok(q) && q.kind
            == RequestKind::GoogleLong && q.url@ == google_long_url(sl@, tl@, content@) && q.body
            is None && q.auth_header is None),
        is_google_api(api@) && !content@.contains(' ') ==> (r matches Ok(q) && q.kind
            == RequestKind::GoogleShort && q.url@ == google_short_url(sl@, tl@, content@) && q.body
            is None && q.auth_header is None),
        api@ == "deepl"@ && !missing_auth_key(auth_key@) ==> (r matches Ok(q) && q.kind
            == RequestKind::DeeplFree && q.url@ == deepl_free_url() && (q.body matches Some(b)
            && b@ == deepl_body(sl@, tl@, content@)) && (q.auth_header matches Some(h) && h@
            == deepl_auth_header(auth_key@))),
        api@ == "deeplpro"@ && !missing_auth_key(auth_key@) ==> (r matches Ok(q) && q.kind
            == RequestKind::DeeplPro && q.url@ == deepl_pro_url() && (q.body matches Some(b) && b@
            == deepl_body(sl@, tl@, content@)) && (q.auth_header matches Some(h) && h@
            == deepl_auth_header(auth_key@))),
        r matches Ok(q) ==> proxy_setting(q.proxy, proxy@) && q.timeout_secs == timeout_secs,
{
    proof {
        reveal_strlit("google");
        reveal_strlit("deepl");
        reveal_strlit("deeplpro");
        assert("google"@.len() == 6);
        assert("deepl"@.len() == 5);
        assert("deeplpro"@.len() == 8);
        assert("google"@ != "deepl"@);
        assert("google"@ != "deeplpro"@);
        assert("deepl"@ != "deeplpro"@);
    }
    if str_eq(api, "google") {
        if contains_space(content) {
            Ok(plan_google_long(sl, tl, content, proxy, timeout_secs))
        } else {
            Ok(plan_google_short(sl, tl, content, proxy, timeout_secs))
        }
    } else if str_eq(api, "deepl") {
        match plan_deepl(sl, tl, content, proxy, auth_key, false, timeout_secs) {
            Ok(q) => Ok(q),
            Err(_) => Err(PlanError::EmptyAuthKey),
        }
    } else if str_eq(api, "deeplpro") {
        match plan_deepl(sl, tl, content, proxy, auth_key, true, timeout_secs) {
            Ok(q) => Ok(q),
            Err(_) => Err(PlanError::EmptyAuthKey),
        }
    } else {
        Err(PlanError::UnsupportedApi)
    }
}

} // verus!
