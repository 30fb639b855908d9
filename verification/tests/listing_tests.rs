use dicom_core::{DataElement, PrimitiveValue, Tag, VR};
use dicom_dictionary_std::StandardDataDictionary;
use dicom_object::InMemDicomObject;

use pulsedcm::entries::{
    all_tagging, classify_field, print_colorize, short_tagging, specific_tagging, SeverityClass,
};
use pulsedcm::field::FieldId;

type Record = InMemDicomObject<StandardDataDictionary>;

fn sample_record() -> Record {
    let mut obj = InMemDicomObject::new_empty();
    obj.put(DataElement::new(
        Tag(0x0010, 0x0010),
        VR::PN,
        PrimitiveValue::from("John Doe"),
    ));
    obj.put(DataElement::new(
        Tag(0x0008, 0x0060),
        VR::CS,
        PrimitiveValue::from("CT"),
    ));
    obj
}

#[test]
fn all_tagging_lists_every_field_in_tag_order() {
    let obj = sample_record();
    let mut out = String::new();
    let entries = all_tagging("f.dcm", &obj, true, &mut out);
    assert_eq!(out, "");
    assert_eq!(entries.len(), 2);
    assert_eq!(entries[0].filename, "f.dcm");
    assert_eq!(entries[0].name, "Modality");
    assert_eq!(entries[0].tag, "(0008 0060)");
    assert_eq!(entries[0].vr, "CS");
    assert_eq!(entries[0].value, "CT");
    assert_eq!(entries[1].name, "PatientName");
    assert_eq!(entries[1].tag, "(0010 0010)");
    assert_eq!(entries[1].vr, "PN");
    assert_eq!(entries[1].value, "John Doe");
}

#[test]
fn all_tagging_renders_lines_unless_exporting() {
    let obj = sample_record();
    let mut out = String::new();
    let entries = all_tagging("f.dcm", &obj, false, &mut out);
    assert_eq!(entries.len(), 2);
    assert_eq!(out.lines().count(), 2);
    assert!(out.contains("PatientName"));
    assert!(out.contains("John Doe"));
}

#[test]
fn short_tagging_lists_present_short_fields_in_fixed_order() {
    let obj = sample_record();
    let mut out = String::new();
    let entries = short_tagging("f.dcm", &obj, true, &mut out);
    // Of the short listing only the patient name and the modality are
    // present; the listing keeps its own fixed order.
    assert_eq!(entries.len(), 2);
    assert_eq!(entries[0].name, "PatientName");
    assert_eq!(entries[1].name, "Modality");
}

#[test]
fn specific_tagging_selects_by_lowercased_name() {
    let obj = sample_record();
    let mut out = String::new();
    let keys = vec!["patientname".to_string()];
    let entries = specific_tagging("f.dcm", &keys, &obj, true, &mut out);
    assert_eq!(entries.len(), 1);
    assert_eq!(entries[0].name, "PatientName");
    assert_eq!(entries[0].value, "John Doe");

    let none = specific_tagging("f.dcm", &vec!["modality2".to_string()], &obj, true, &mut out);
    assert_eq!(none.len(), 0);
}

#[test]
fn listing_of_an_empty_record() {
    let obj: Record = InMemDicomObject::new_empty();
    let mut out = String::new();
    let entries = all_tagging("f.dcm", &obj, false, &mut out);
    assert_eq!(entries.len(), 0);
    assert_eq!(out, "");
}

#[test]
fn sequence_values_render_as_binary() {
    let mut obj: Record = InMemDicomObject::new_empty();
    obj.put(DataElement::empty(Tag(0x0008, 0x1115), VR::SQ));
    let mut out = String::new();
    let entries = all_tagging("f.dcm", &obj, true, &mut out);
    assert_eq!(entries.len(), 1);
    assert_eq!(entries[0].value, "[Binary]");
    assert_eq!(entries[0].vr, "SQ");
    assert_eq!(entries[0].name, "ReferencedSeriesSequence");
}

#[test]
fn trailing_spaces_are_trimmed_in_renderings() {
    let mut obj: Record = InMemDicomObject::new_empty();
    obj.put(DataElement::new(
        Tag(0x0010, 0x0010),
        VR::PN,
        PrimitiveValue::from("Doe "),
    ));
    let mut out = String::new();
    let entries = all_tagging("f.dcm", &obj, true, &mut out);
    assert_eq!(entries[0].value, "Doe");
}

#[test]
fn specific_tagging_keys_are_matched_as_given() {
    let obj = sample_record();
    let mut out = String::new();
    // The parser lowercases the keyword list; a mixed-case key given
    // directly matches nothing.
    let keys = vec!["PatientName".to_string()];
    let entries = specific_tagging("f.dcm", &keys, &obj, true, &mut out);
    assert_eq!(entries.len(), 0);
}

#[test]
fn classification_for_display() {
    assert_eq!(
        classify_field(FieldId::new(0x0010, 0x0010), "John", "PatientName"),
        SeverityClass::DirectPhi
    );
    assert_eq!(
        classify_field(FieldId::new(0x0008, 0x0050), "123", "AccessionNumber"),
        SeverityClass::OperationalWarning
    );
    assert_eq!(
        classify_field(FieldId::new(0x7FE0, 0x0010), "[Binary]", "PixelData"),
        SeverityClass::UnknownOrBinary
    );
    assert_eq!(
        classify_field(FieldId::new(0x0008, 0x0061), "X", "SomeName"),
        SeverityClass::Normal
    );
}

#[test]
fn colorized_line_exact_form() {
    let mut out = String::new();
    print_colorize(FieldId::new(0x0010, 0x0010), "PN", "X", "Patient", &mut out);
    let expected = format!(
        "\u{1b}[1;91m({:04X},{:04X})\u{1b}[0m \u{1b}[0m{:<2} {:<30} {}\u{1b}[0m\n",
        0x0010, 0x0010, "PN", "Patient", "X"
    );
    assert_eq!(out, expected);
}

#[test]
fn colorized_line_greys_binary_values() {
    let mut out = String::new();
    print_colorize(
        FieldId::new(0x7FE0, 0x0010),
        "OW",
        "[Binary]",
        "PixelData",
        &mut out,
    );
    assert!(out.starts_with("\u{1b}[90m"));
    assert!(out.contains("\u{1b}[90mOW"));
}
