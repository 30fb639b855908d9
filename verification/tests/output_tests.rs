use pulsedcm::output::{
    dec_u64, export_timestamped, export_with_extension, final_output_path, is_record_file,
    path_base_name, path_dir_name, path_join, resolve_destination, resolve_output, with_extension,
    OutputDecision,
};

#[test]
fn base_and_dir_names() {
    assert_eq!(path_base_name("/a/b/c.dcm"), "c.dcm");
    assert_eq!(path_base_name("c.dcm"), "c.dcm");
    assert_eq!(path_dir_name("/a/b/c.dcm"), "/a/b");
    assert_eq!(path_dir_name("c.dcm"), "");
}

#[test]
fn joining_paths() {
    assert_eq!(path_join("d", "f"), "d/f");
    assert_eq!(path_join("d/", "f"), "d/f");
    assert_eq!(path_join("", "f"), "f");
}

#[test]
fn unset_output_means_overwrite_in_place() {
    let d = resolve_output("in/a.dcm", &None, false);
    assert!(matches!(d, OutputDecision::OverwriteInPlace));
}

#[test]
fn output_equal_to_input_means_overwrite_in_place() {
    let d = resolve_output("in/a.dcm", &Some("in/a.dcm".to_string()), false);
    assert!(matches!(d, OutputDecision::OverwriteInPlace));
}

#[test]
fn directory_output_receives_the_file() {
    let d = resolve_output("in/a.dcm", &Some("out".to_string()), true);
    match d {
        OutputDecision::WriteIntoDirectory(p) => assert_eq!(p, "out"),
        _ => panic!("expected a directory decision"),
    }
}

#[test]
fn existing_file_output_is_invalid() {
    let d = resolve_output("in/a.dcm", &Some("other.dcm".to_string()), false);
    assert!(matches!(d, OutputDecision::Invalid));
}

#[test]
fn resolved_path_is_directory_plus_base_name() {
    assert_eq!(final_output_path("out", "/in/f.dcm"), "out/f.dcm");
    assert_eq!(final_output_path("out/", "f.dcm"), "out/f.dcm");
}

#[test]
fn extension_replacement() {
    assert_eq!(with_extension("/a/b.dcm", "png"), "/a/b.png");
    assert_eq!(with_extension("noext", "png"), "noext.png");
}

#[test]
fn export_extension_defaulting() {
    assert_eq!(export_with_extension("report", "csv"), "report.csv");
    assert_eq!(export_with_extension("report.json", "csv"), "report.json");
}

#[test]
fn export_renaming_when_target_exists() {
    assert_eq!(export_timestamped("report.csv", 123, "csv"), "report_123.csv");
    assert_eq!(export_timestamped("/x/report.csv", 5, "csv"), "/x/report_5.csv");
}

#[test]
fn decimal_rendering() {
    assert_eq!(dec_u64(0), "0");
    assert_eq!(dec_u64(9), "9");
    assert_eq!(dec_u64(1234567890123), "1234567890123");
}

#[test]
fn record_file_extension_filter() {
    assert!(is_record_file("a/b.DCM"));
    assert!(is_record_file("a.dcm"));
    assert!(!is_record_file("a/b.dcmx"));
    assert!(!is_record_file("dcm"));
    assert!(!is_record_file(".dcm"));
    assert!(!is_record_file("a/.dcm"));
}

#[test]
fn destination_per_decision() {
    assert_eq!(
        resolve_destination("in/a.dcm", &None, false),
        Some("in/a.dcm".to_string())
    );
    assert_eq!(
        resolve_destination("in/a.dcm", &Some("in/a.dcm".to_string()), false),
        Some("in/a.dcm".to_string())
    );
    assert_eq!(
        resolve_destination("in/a.dcm", &Some("out".to_string()), true),
        Some("out/a.dcm".to_string())
    );
    assert_eq!(
        resolve_destination("in/a.dcm", &Some("other.dcm".to_string()), false),
        None
    );
}
