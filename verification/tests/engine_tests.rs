use dicom_core::{DataElement, PrimitiveValue, Tag, VR};
use dicom_dictionary_std::StandardDataDictionary;
use dicom_object::InMemDicomObject;

use pulsedcm::actions::Actions;
use pulsedcm::errors::{DicomError, PulseError, PulseErrorKind};
use pulsedcm::view::{classify_bands, effective_open, is_jpeg2000_ts, ColorLayout};
use pulsedcm::deid::{apply_action, apply_policy};
use pulsedcm::field::FieldId;
use pulsedcm::policy::Policy;

type Record = InMemDicomObject<StandardDataDictionary>;

fn sample_record() -> Record {
    let mut obj = InMemDicomObject::new_empty();
    obj.put(DataElement::new(
        Tag(0x0010, 0x0010),
        VR::PN,
        PrimitiveValue::from("John Doe"),
    ));
    obj.put(DataElement::new(
        Tag(0x0008, 0x0060),
        VR::CS,
        PrimitiveValue::from("CT"),
    ));
    obj.put(DataElement::new(
        Tag(0x0008, 0x0020),
        VR::DA,
        PrimitiveValue::from("20200101"),
    ));
    obj
}

fn text_of(obj: &Record, g: u16, e: u16) -> Option<String> {
    obj.element(Tag(g, e))
        .ok()
        .map(|el| el.value().to_str().unwrap().into_owned())
}

#[test]
fn replace_substitutes_the_fixed_literal() {
    let mut obj = sample_record();
    apply_policy(&mut obj, &Policy::Basic, &Actions::Replace);
    assert_eq!(text_of(&obj, 0x0010, 0x0010), Some("Anonymized".to_string()));
    // Fields outside the basic policy's set are untouched.
    assert_eq!(text_of(&obj, 0x0008, 0x0060), Some("CT".to_string()));
    assert_eq!(text_of(&obj, 0x0008, 0x0020), Some("20200101".to_string()));
}

#[test]
fn zero_substitutes_the_sentinel() {
    let mut obj = sample_record();
    apply_policy(&mut obj, &Policy::Basic, &Actions::Zero);
    assert_eq!(text_of(&obj, 0x0010, 0x0010), Some("0".to_string()));
    assert_eq!(text_of(&obj, 0x0008, 0x0060), Some("CT".to_string()));
    assert_eq!(text_of(&obj, 0x0008, 0x0020), Some("20200101".to_string()));
}

#[test]
fn remove_deletes_the_field() {
    let mut obj = sample_record();
    apply_policy(&mut obj, &Policy::Basic, &Actions::Remove);
    assert!(obj.element(Tag(0x0010, 0x0010)).is_err());
    assert_eq!(text_of(&obj, 0x0008, 0x0060), Some("CT".to_string()));
    assert_eq!(text_of(&obj, 0x0008, 0x0020), Some("20200101".to_string()));
    assert_eq!(obj.iter().count(), 2);
}

#[test]
fn replace_keeps_the_value_representation() {
    let mut obj = sample_record();
    apply_policy(&mut obj, &Policy::Basic, &Actions::Replace);
    assert_eq!(obj.element(Tag(0x0010, 0x0010)).unwrap().vr(), VR::PN);
}

#[test]
fn absent_field_is_one_warning_and_no_change() {
    let mut obj = sample_record();
    let warned = apply_action(&mut obj, FieldId::new(0x0010, 0x0030), &Actions::Replace);
    assert!(warned);
    assert_eq!(obj.iter().count(), 3);
    assert_eq!(text_of(&obj, 0x0010, 0x0010), Some("John Doe".to_string()));
    assert_eq!(text_of(&obj, 0x0008, 0x0060), Some("CT".to_string()));
    assert_eq!(text_of(&obj, 0x0008, 0x0020), Some("20200101".to_string()));
}

#[test]
fn present_field_is_no_warning() {
    let mut obj = sample_record();
    let warned = apply_action(&mut obj, FieldId::new(0x0010, 0x0010), &Actions::Zero);
    assert!(!warned);
    assert_eq!(text_of(&obj, 0x0010, 0x0010), Some("0".to_string()));
}

#[test]
fn warnings_name_the_absent_policy_fields() {
    let mut obj = sample_record();
    let warned = apply_policy(&mut obj, &Policy::Basic, &Actions::Replace);
    // Of the basic policy's 30 fields only the patient name is present.
    assert_eq!(warned.len(), 29);
    assert!(!warned.contains(&FieldId::new(0x0010, 0x0010)));
    assert!(warned.contains(&FieldId::new(0x0010, 0x0030)));
}

#[test]
fn moderate_policy_reaches_the_study_date() {
    let mut obj = sample_record();
    apply_policy(&mut obj, &Policy::Moderate, &Actions::Replace);
    assert_eq!(text_of(&obj, 0x0008, 0x0020), Some("Anonymized".to_string()));
    // Modality stays: no policy names it.
    assert_eq!(text_of(&obj, 0x0008, 0x0060), Some("CT".to_string()));
}

#[test]
fn applying_twice_is_as_applying_once() {
    let mut once = sample_record();
    apply_policy(&mut once, &Policy::Basic, &Actions::Replace);
    let mut twice = sample_record();
    apply_policy(&mut twice, &Policy::Basic, &Actions::Replace);
    apply_policy(&mut twice, &Policy::Basic, &Actions::Replace);
    assert_eq!(text_of(&twice, 0x0010, 0x0010), text_of(&once, 0x0010, 0x0010));
    assert_eq!(twice.iter().count(), once.iter().count());
}

#[test]
fn errors_render_kind_and_context() {
    let e = PulseError::new(PulseErrorKind::IO("boom".to_string()), "ctx".to_string());
    assert_eq!(e.describe(), "I/O Error: boom : ctx");
    let d = PulseError::new(
        PulseErrorKind::Dicom(DicomError::Read("bad header".to_string())),
        "DICOM error".to_string(),
    );
    assert_eq!(d.describe(), "Dicom Error: Read: bad header : DICOM error");
    let u = PulseError::new(PulseErrorKind::UnsupportedComponent, "n=2".to_string());
    assert_eq!(u.describe(), "Unsupported number of components : n=2");
}

#[test]
fn view_decisions() {
    assert!(is_jpeg2000_ts("1.2.840.10008.1.2.4.90"));
    assert!(is_jpeg2000_ts("1.2.840.10008.1.2.4.91"));
    assert!(!is_jpeg2000_ts("1.2.840.10008.1.2.1"));
    assert_eq!(classify_bands(1), Some(ColorLayout::Gray));
    assert_eq!(classify_bands(3), Some(ColorLayout::Rgb));
    assert_eq!(classify_bands(4), Some(ColorLayout::Rgba));
    assert_eq!(classify_bands(2), None);
    assert_eq!(effective_open(0, true), 1);
    assert_eq!(effective_open(0, false), 0);
    assert_eq!(effective_open(3, true), 3);
}

#[test]
fn preview_renders_the_transformed_record_without_writing() {
    let mut obj = sample_record();
    let mut rendering = String::new();
    let (warned, entries) = pulsedcm::preview::preview(
        "f.dcm",
        &mut obj,
        &Policy::Basic,
        &Actions::Replace,
        &mut rendering,
    );
    assert_eq!(warned.len(), 29);
    assert!(rendering.contains("Anonymized"));
    assert!(!rendering.contains("John Doe"));
    assert_eq!(entries.len(), 3);
    assert_eq!(entries[2].name, "PatientName");
    assert_eq!(entries[2].value, "Anonymized");
    assert_eq!(entries[1].value, "CT");
}
