use c3_extension::text::{has_prefix, ByteSpan, FragmentBuilder};

#[test]
fn builder_starts_empty() {
    assert_eq!(FragmentBuilder::new().finish(), "");
}

#[test]
fn builder_records_byte_spans() {
    let mut builder = FragmentBuilder::new();
    assert_eq!(builder.push("ab"), ByteSpan { start: 0, end: 2 });
    assert_eq!(builder.push(""), ByteSpan { start: 2, end: 2 });
    assert_eq!(builder.push("ü"), ByteSpan { start: 2, end: 4 });
    assert_eq!(builder.push("🦀"), ByteSpan { start: 4, end: 8 });
    assert_eq!(builder.push("z"), ByteSpan { start: 8, end: 9 });
    assert_eq!(builder.finish(), "abü🦀z");
}

#[test]
fn prefix_of_longer_text() {
    assert!(has_prefix("macro void()", "macro"));
    assert!(has_prefix("macro", "macro"));
    assert!(has_prefix("macroFoo", "macro"));
    assert!(has_prefix("anything", ""));
    assert!(has_prefix("", ""));
    assert!(has_prefix("größe", "grö"));
}

#[test]
fn no_prefix() {
    assert!(!has_prefix("macr", "macro"));
    assert!(!has_prefix("", "macro"));
    assert!(!has_prefix("Macro", "macro"));
    assert!(!has_prefix(" macro", "macro"));
    assert!(!has_prefix("macrö", "macro"));
    assert!(!has_prefix("grosse", "grö"));
    assert!(!has_prefix("ab", "abc"));
}
