use cliptrans::lang::standardized_lang;

#[test]
fn map_chinese_simplified_per_provider() {
    let (sl, tl) = standardized_lang("Chinese (Simplified)", "English", "google").unwrap();
    assert_eq!(sl, "zh-CN");
    assert_eq!(tl, "en");
    let (sl, tl) = standardized_lang("Chinese (Simplified)", "English", "deepl").unwrap();
    assert_eq!(sl, "ZH");
    assert_eq!(tl, "EN");
}

#[test]
fn google_table_entries() {
    let (sl, tl) = standardized_lang("Chinese (Traditional)", "Japanese", "google").unwrap();
    assert_eq!(sl, "zh-TW");
    assert_eq!(tl, "ja");
    let (sl, tl) = standardized_lang("Korean", "French", "google").unwrap();
    assert_eq!(sl, "ko");
    assert_eq!(tl, "fr");
    let (sl, tl) = standardized_lang("Russian", "German", "google").unwrap();
    assert_eq!(sl, "ru");
    assert_eq!(tl, "de");
    let (sl, tl) = standardized_lang("Spanish", "Italian", "google").unwrap();
    assert_eq!(sl, "es");
    assert_eq!(tl, "it");
}

#[test]
fn deepl_table_entries() {
    let (sl, tl) = standardized_lang("English (American)", "Chinese", "deepl").unwrap();
    assert_eq!(sl, "EN-US");
    assert_eq!(tl, "ZH");
    let (sl, tl) = standardized_lang("English (British)", "Japanese", "deeplpro").unwrap();
    assert_eq!(sl, "EN-GB");
    assert_eq!(tl, "JA");
    let (sl, tl) = standardized_lang("Korean", "Russian", "deepl").unwrap();
    assert_eq!(sl, "KO");
    assert_eq!(tl, "RU");
}

#[test]
fn unmapped_language_silently_degrades_to_default() {
    // deliberate fallback inherited from the design: not an error
    let (sl, _) = standardized_lang("Klingon", "English", "google").unwrap();
    assert_eq!(sl, "en");
    let (sl, _) = standardized_lang("Klingon", "English", "deeplpro").unwrap();
    assert_eq!(sl, "EN-US");
}

#[test]
fn unknown_provider_is_an_error() {
    assert!(standardized_lang("English", "French", "bing").is_err());
    assert!(standardized_lang("English", "French", "").is_err());
}
