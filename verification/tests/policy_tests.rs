use pulsedcm::actions::{parse_actions, Actions};
use pulsedcm::field::FieldId;
use pulsedcm::policy::{parse_policy, Policy};

#[test]
fn policy_sizes() {
    assert_eq!(Policy::Basic.tags().len(), 30);
    assert_eq!(Policy::Moderate.tags().len(), 44);
    assert_eq!(Policy::Strict.tags().len(), 60);
}

#[test]
fn policy_cascade_concrete() {
    let basic = Policy::Basic.tags();
    let moderate = Policy::Moderate.tags();
    let strict = Policy::Strict.tags();
    for f in &basic {
        assert!(moderate.contains(f));
    }
    for f in &moderate {
        assert!(strict.contains(f));
    }
}

#[test]
fn policy_lists_have_no_duplicates() {
    let strict = Policy::Strict.tags();
    for i in 0..strict.len() {
        for j in (i + 1)..strict.len() {
            assert_ne!(strict[i], strict[j]);
        }
    }
}

#[test]
fn basic_policy_covers_patient_name() {
    let basic = Policy::Basic.tags();
    assert!(basic.contains(&FieldId::new(0x0010, 0x0010)));
    assert!(!basic.contains(&FieldId::new(0x0008, 0x0020)));
}

#[test]
fn parse_policy_keywords() {
    assert_eq!(parse_policy("basic"), Ok(Policy::Basic));
    assert_eq!(parse_policy("MODERATE"), Ok(Policy::Moderate));
    assert_eq!(parse_policy("sTrIcT"), Ok(Policy::Strict));
}

#[test]
fn parse_policy_rejects_unknown() {
    let r = parse_policy("mild");
    assert_eq!(
        r,
        Err("should be either: 'basic', 'moderate' or 'strict'".to_string())
    );
}

#[test]
fn parse_actions_keywords() {
    assert_eq!(parse_actions("replace"), Ok(Actions::Replace));
    assert_eq!(parse_actions("REMOVE"), Ok(Actions::Remove));
    assert_eq!(parse_actions("Zero"), Ok(Actions::Zero));
}

#[test]
fn parse_actions_rejects_unknown() {
    let r = parse_actions("scrub");
    assert_eq!(
        r,
        Err("should be either: 'replace', 'remove' or 'zero'".to_string())
    );
}

#[test]
fn phi_and_warning_classification_of_fields() {
    assert!(pulsedcm::field::is_phi_tag(FieldId::new(0x0010, 0x0010)));
    assert!(pulsedcm::field::is_phi_tag(FieldId::new(0x0038, 0x0400)));
    assert!(!pulsedcm::field::is_phi_tag(FieldId::new(0x0008, 0x0060)));
    assert!(pulsedcm::field::is_warning_tag(FieldId::new(0x0008, 0x0050)));
    assert!(pulsedcm::field::is_warning_tag(FieldId::new(0x0018, 0x1030)));
    assert!(!pulsedcm::field::is_warning_tag(FieldId::new(0x0010, 0x0010)));
}
