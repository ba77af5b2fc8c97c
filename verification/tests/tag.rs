use backwards_compat::tag::VersionTag;
use backwards_compat::text::{read_u64, u64_to_text, IntTextError};

#[test]
fn tag_strings() {
    assert_eq!(VersionTag::Int(0).to_tag_string(), "0");
    assert_eq!(VersionTag::Int(42).to_tag_string(), "42");
    assert_eq!(VersionTag::Int(u64::MAX).to_tag_string(), "18446744073709551615");
    assert_eq!(VersionTag::String("1.0".to_string()).to_tag_string(), "1.0");
    assert_eq!(VersionTag::Int(7).to_display_string(), "7");
}

#[test]
fn tags_match_by_text() {
    let one = VersionTag::Int(1);
    let one_str = VersionTag::String("1".to_string());
    let two = VersionTag::Int(2);
    let padded = VersionTag::String("01".to_string());
    assert!(one.matches(&one_str));
    assert!(one_str.matches(&one));
    assert!(one.matches(&VersionTag::Int(1)));
    assert!(!one.matches(&two));
    assert!(!one.matches(&padded));
    assert!(VersionTag::String("v3".to_string()).matches(&VersionTag::String("v3".to_string())));
    assert!(!VersionTag::String("v3".to_string()).matches(&VersionTag::String("v4".to_string())));
}

#[test]
fn tag_equality_is_structural() {
    assert_eq!(VersionTag::Int(1), VersionTag::Int(1));
    assert_ne!(VersionTag::Int(1), VersionTag::String("1".to_string()));
    let copy = VersionTag::String("x".to_string()).copy();
    assert_eq!(copy, VersionTag::String("x".to_string()));
}

#[test]
fn decimal_text_and_reading() {
    assert_eq!(u64_to_text(1234567890), "1234567890");
    assert_eq!(read_u64(&"0".to_string()), Ok(0));
    assert_eq!(read_u64(&"18446744073709551615".to_string()), Ok(u64::MAX));
    assert_eq!(read_u64(&"18446744073709551616".to_string()), Err(IntTextError::Overflow));
    assert_eq!(read_u64(&"".to_string()), Err(IntTextError::Empty));
    assert_eq!(read_u64(&"12a".to_string()), Err(IntTextError::InvalidDigit));
}

#[test]
fn tags_clone_and_hash() {
    let t = VersionTag::String("1.0".to_string());
    let u = t.clone();
    assert_eq!(t, u);
    let mut set = std::collections::HashSet::new();
    set.insert(t);
    set.insert(u);
    set.insert(VersionTag::Int(1));
    assert_eq!(set.len(), 2);
}
