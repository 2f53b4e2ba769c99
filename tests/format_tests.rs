use nmm_core::{best_format, FormatConfidence};

#[test]
fn test_format_confidence_ordering() {
    assert!(FormatConfidence::Match > FormatConfidence::Compatible);
    assert!(FormatConfidence::Compatible > FormatConfidence::Convertible);
    assert!(FormatConfidence::Convertible > FormatConfidence::Incompatible);
}

#[test]
fn test_format_confidence_usable() {
    assert!(FormatConfidence::Match.is_usable());
    assert!(FormatConfidence::Compatible.is_usable());
    assert!(!FormatConfidence::Convertible.is_usable());
    assert!(!FormatConfidence::Incompatible.is_usable());
}

#[test]
fn best_format_prefers_highest_usable_confidence() {
    let cs = vec![FormatConfidence::Compatible, FormatConfidence::Match];
    assert_eq!(best_format(&cs), Some(1));
    let cs = vec![FormatConfidence::Compatible, FormatConfidence::Incompatible];
    assert_eq!(best_format(&cs), Some(0));
    let cs = vec![FormatConfidence::Match, FormatConfidence::Convertible];
    assert_eq!(best_format(&cs), Some(0));
}

#[test]
fn best_format_takes_last_of_ties() {
    let cs = vec![FormatConfidence::Compatible, FormatConfidence::Compatible];
    assert_eq!(best_format(&cs), Some(1));
}

#[test]
fn best_format_none_when_nothing_usable() {
    assert_eq!(best_format(&vec![]), None);
    let cs = vec![FormatConfidence::Convertible, FormatConfidence::Incompatible];
    assert_eq!(best_format(&cs), None);
}
