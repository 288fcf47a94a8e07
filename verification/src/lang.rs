//! Language-code mapping: human-readable language names to provider-specific
//! codes, one independent table per provider family.
//!
//! An unknown language name falls back to the provider's default code rather
//! than failing; only an unknown provider name is an error.

use vstd::prelude::*;

use crate::errors::UnsupportApiError;
use crate::text::str_eq;

verus! {

/// The sentence-endpoint provider's code for a human-readable language name
/// (lowercase ISO-style codes). Unknown names fall back to "en".
pub open spec fn google_code(name: Seq<char>) -> Seq<char> {
    if name == "English"@ {
        "en"@
    } else if name == "Chinese (Simplified)"@ {
        "zh-CN"@
    } else if name == "Chinese (Traditional)"@ {
        "zh-TW"@
    } else if name == "Japanese"@ {
        "ja"@
    } else if name == "Korean"@ {
        "ko"@
    } else if name == "French"@ {
        "fr"@
    } else if name == "Russian"@ {
        "ru"@
    } else if name == "German"@ {
        "de"@
    } else if name == "Spanish"@ {
        "es"@
    } else if name == "Italian"@ {
        "it"@
    } else {
        "en"@
    }
}

/// The commercial provider's code for a human-readable language name
/// (uppercase codes with regional variants). Unknown names fall back to
/// "EN-US".
pub open spec fn deepl_code(name: Seq<char>) -> Seq<char> {
    if name == "English"@ {
        "EN"@
    } else if name == "Chinese"@ {
        "ZH"@
    } else if name == "Japanese"@ {
        "JA"@
    } else if name == "French"@ {
        "FR"@
    } else if name == "German"@ {
        "DE"@
    } else if name == "Korean"@ {
        "KO"@
    } else if name == "Russian"@ {
        "RU"@
    } else if name == "Spanish"@ {
        "ES"@
    } else if name == "Italian"@ {
        "IT"@
    } else if name == "English (American)"@ {
        "EN-US"@
    } else if name == "English (British)"@ {
        "EN-GB"@
    } else if name == "Chinese (Simplified)"@ {
        "ZH"@
    } else {
        "EN-US"@
    }
}

/// Whether `api` names the free sentence-endpoint provider.
pub open spec fn is_google_api(api: Seq<char>) -> bool {
    api == "google"@
}

/// Whether `api` names one of the commercial provider's tiers.
pub open spec fn is_deepl_api(api: Seq<char>) -> bool {
    api == "deepl"@ || api == "deeplpro"@
}

/// Look up the sentence-endpoint provider's code for a language name.
pub fn google_code_of(name: &str) -> (r: &'static str)
    ensures
        r@ == google_code(name@),
{
    if str_eq(name, "English") {
        "en"
    } else if str_eq(name, "Chinese (Simplified)") {
        "zh-CN"
    } else if str_eq(name, "Chinese (Traditional)") {
        "zh-TW"
    } else if str_eq(name, "Japanese") {
        "ja"
    } else if str_eq(name, "Korean") {
        "ko"
    } else if str_eq(name, "French") {
        "fr"
    } else if str_eq(name, "Russian") {
        "ru"
    } else if str_eq(name, "German") {
        "de"
    } else if str_eq(name, "Spanish") {
        "es"
    } else if str_eq(name, "Italian") {
        "it"
    } else {
        "en"
    }
}

/// Look up the commercial provider's code for a language name.
pub fn deepl_code_of(name: &str) -> (r: &'static str)
    ensures
        r@ == deepl_code(name@),
{
    if str_eq(name, "English") {
        "EN"
    } else if str_eq(name, "Chinese") {
        "ZH"
    } else if str_eq(name, "Japanese") {
        "JA"
    } else if str_eq(name, "French") {
        "FR"
    } else if str_eq(name, "German") {
        "DE"
    } else if str_eq(name, "Korean") {
        "KO"
    } else if str_eq(name, "Russian") {
        "RU"
    } else if str_eq(name, "Spanish") {
        "ES"
    } else if str_eq(name, "Italian") {
        "IT"
    } else if str_eq(name, "English (American)") {
        "EN-US"
    } else if str_eq(name, "English (British)") {
        "EN-GB"
    } else if str_eq(name, "Chinese (Simplified)") {
        "ZH"
    } else {
        "EN-US"
    }
}

/// Map the configured source and target language names to the codes of the
/// selected provider. Unknown provider names are the one configuration error;
/// unknown language names silently degrade to the provider's default code.
pub fn standardized_lang<'a>(sl: &'a str, tl: &'a str, api: &'a str) -> (r: Result<
    (&'a str, &'a str),
    UnsupportApiError,
>)
    ensures
        is_google_api(api@) ==> (r matches Ok(codes) && codes.0@ == google_code(sl@) && codes.1@
            == google_code(tl@)),
        is_deepl_api(api@) ==> (r matches Ok(codes) && codes.0@ == deepl_code(sl@) && codes.1@
            == deepl_code(tl@)),
        !is_google_api(api@) && !is_deepl_api(api@) ==> r is Err,
{
    proof {
        reveal_strlit("google");
        reveal_strlit("deepl");
        reveal_strlit("deeplpro");
        assert("google"@.len() == 6);
        assert("deepl"@.len() == 5);
        assert("deeplpro"@.len() == 8);
        assert("google"@ != "deepl"@);
        assert("google"@ != "deeplpro"@);
    }
    if str_eq(api, "google") {
        Ok((google_code_of(sl), google_code_of(tl)))
    } else if str_eq(api, "deepl") || str_eq(api, "deeplpro") {
        Ok((deepl_code_of(sl), deepl_code_of(tl)))
    } else {
        Err(UnsupportApiError)
    }
}

} // verus!
