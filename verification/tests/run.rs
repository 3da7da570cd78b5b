use barcode_evidence::error::EvidenceError;
use barcode_evidence::run::{column_at_site, select_mode, RunMode};

#[test]
fn maternal_mode_takes_the_name_of_the_mother() {
    assert_eq!(
        select_mode(false, Some("mum".to_string()), None),
        Ok(RunMode::Maternal("mum".to_string()))
    );
    assert_eq!(
        select_mode(false, Some("mum".to_string()), Some("dad".to_string())),
        Ok(RunMode::Maternal("mum".to_string()))
    );
}

#[test]
fn paternal_mode_takes_the_name_of_the_father() {
    assert_eq!(
        select_mode(true, None, Some("dad".to_string())),
        Ok(RunMode::Paternal("dad".to_string()))
    );
    assert_eq!(
        select_mode(true, Some("mum".to_string()), Some("dad".to_string())),
        Ok(RunMode::Paternal("dad".to_string()))
    );
}

#[test]
fn maternal_mode_without_mother_is_rejected() {
    assert_eq!(
        select_mode(false, None, None),
        Err(EvidenceError::MissingRequiredArgument)
    );
    assert_eq!(
        select_mode(false, None, Some("dad".to_string())),
        Err(EvidenceError::MissingRequiredArgument)
    );
}

#[test]
fn paternal_mode_without_father_is_rejected() {
    assert_eq!(
        select_mode(true, None, None),
        Err(EvidenceError::MissingRequiredArgument)
    );
    assert_eq!(
        select_mode(true, Some("mum".to_string()), None),
        Err(EvidenceError::MissingRequiredArgument)
    );
}

#[test]
fn column_is_at_the_site_when_the_positions_agree() {
    assert!(column_at_site(0, 0));
    assert!(column_at_site(12334534, 12334534));
    assert!(column_at_site(u32::MAX, 4294967295));
    assert!(!column_at_site(12334534, 12334535));
    assert!(!column_at_site(12334535, 12334534));
    assert!(!column_at_site(0, -1));
    assert!(!column_at_site(u32::MAX, -1));
    assert!(!column_at_site(0, 4294967296));
}
