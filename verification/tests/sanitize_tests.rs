use cliptrans::text::{fliter_long, fliter_short, should_translate, Text};

#[test]
fn test() {
    assert_eq!(2 + 2, 4);
}

#[test]
fn long_mode_repairs_abbreviation() {
    assert_eq!(fliter_long("et al. said"), "et al said");
}

#[test]
fn long_mode_leaves_other_text_alone() {
    assert_eq!(fliter_long("hello world."), "hello world.");
    assert_eq!(fliter_long("altitude"), "altitude");
    assert_eq!(fliter_long(""), "");
}

#[test]
fn short_mode_strips_ascii_punctuation() {
    assert_eq!(fliter_short("hello, world!"), "hello world");
}

#[test]
fn short_mode_strips_quotes_and_brackets() {
    assert_eq!(fliter_short("\"a\" (b) <c>: d?"), "a b c d");
}

#[test]
fn short_mode_strips_cjk_punctuation() {
    assert_eq!(
        fliter_short("\u{300A}\u{4F60}\u{597D}\u{300B}\u{3002}"),
        "\u{4F60}\u{597D}"
    );
    assert_eq!(
        fliter_short("\u{201C}hi\u{201D}\u{FF0C}\u{FF08}ok\u{FF09}\u{FF1A}"),
        "hiok"
    );
}

#[test]
fn filter_trims_whitespace() {
    assert_eq!(Text::filter("  hello  "), "hello");
    assert_eq!(Text::filter("\n\thello\r\n"), "hello");
    assert_eq!(Text::filter(""), "");
    assert_eq!(Text::filter("   "), "");
}

#[test]
fn filter_trims_unicode_whitespace() {
    assert_eq!(Text::filter("\u{2003}hello\u{A0}"), "hello");
    assert_eq!(Text::filter(".\u{A0}y"), "y");
    assert_eq!(Text::filter("\u{3000}\u{2028}x\u{205F}\u{85}"), "x");
}

#[test]
fn filter_strips_one_leading_period_and_comma() {
    assert_eq!(Text::filter(".lead"), "lead");
    assert_eq!(Text::filter(",lead"), "lead");
    assert_eq!(Text::filter(".,lead"), "lead");
    assert_eq!(Text::filter("..lead"), ".lead");
}

#[test]
fn filter_joins_hyphenated_line_breaks() {
    assert_eq!(Text::filter("co-\noperate"), "cooperate");
}

#[test]
fn filter_escapes_query_delimiters() {
    assert_eq!(Text::filter("a%b"), "a%25b");
    assert_eq!(Text::filter("a&b#c"), "a%26b%23c");
}

#[test]
fn filter_turns_line_breaks_into_spaces() {
    assert_eq!(Text::filter("a\nb"), "a b");
}

#[test]
fn text_new_keeps_content() {
    let t = Text::new("abc");
    assert_eq!(t.content, "abc");
}

#[test]
fn retranslation_guard() {
    assert!(!should_translate("", "anything"));
    assert!(!should_translate("same", "same"));
    assert!(should_translate("new", "old"));
    assert!(should_translate("first", ""));
}
