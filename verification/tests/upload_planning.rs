use acemcp_core::upload::build_project_blobs;
use acemcp_core::upload::format_bytes;
use acemcp_core::upload::plan_project_upload;
use acemcp_core::upload::project_upload_name;
use acemcp_core::upload::single_upload_name;

#[test]
fn sampling_caps_a_large_project() {
    let plan = plan_project_upload(500, "sample", Some(200)).unwrap();
    assert_eq!(plan.planned_files, 200);
    assert!(plan.truncated);
    assert!(!plan.full_mode);
}

#[test]
fn sampling_takes_everything_below_the_cap() {
    let plan = plan_project_upload(150, "sample", Some(200)).unwrap();
    assert_eq!(plan.planned_files, 150);
    assert!(!plan.truncated);
}

#[test]
fn the_default_cap_is_two_hundred_and_never_below_one() {
    let plan = plan_project_upload(500, "sample", None).unwrap();
    assert_eq!(plan.planned_files, 200);
    let plan = plan_project_upload(500, "sample", Some(0)).unwrap();
    assert_eq!(plan.planned_files, 1);
}

#[test]
fn full_mode_takes_every_file() {
    let plan = plan_project_upload(500, "full", Some(200)).unwrap();
    assert_eq!(plan.planned_files, 500);
    assert!(!plan.truncated);
    assert!(plan.full_mode);
}

#[test]
fn an_unknown_upload_mode_is_rejected() {
    let r = plan_project_upload(500, "everything", None);
    assert_eq!(
        r.unwrap_err(),
        "invalid project upload mode: only sample and full are supported"
    );
}

#[test]
fn byte_counts_format_with_two_decimals() {
    assert_eq!(format_bytes(0), "0B");
    assert_eq!(format_bytes(512), "512B");
    assert_eq!(format_bytes(1024), "1.00KB");
    assert_eq!(format_bytes(1536), "1.50KB");
    assert_eq!(format_bytes(1048576), "1.00MB");
    assert_eq!(format_bytes(1572864), "1.50MB");
    assert_eq!(format_bytes(1073741824), "1.00GB");
    assert_eq!(format_bytes(2684354560), "2.50GB");
}

#[test]
fn unreadable_files_are_skipped_and_counted() {
    let outcomes: Vec<(String, Result<String, String>)> = vec![
        ("a.txt".to_string(), Ok("x\ny\n".to_string())),
        ("b.txt".to_string(), Err("permission denied".to_string())),
        ("c.txt".to_string(), Ok("z".to_string())),
    ];
    let out = build_project_blobs(&outcomes, 1);
    assert_eq!(out.tested_files, 2);
    assert_eq!(out.skipped_files, 1);
    assert_eq!(
        out.first_error.as_deref(),
        Some("failed to read file b.txt: permission denied")
    );
    // a.txt has two lines against a one-line bound: two chunks; c.txt one
    assert_eq!(out.blobs.len(), 3);
    assert_eq!(out.blobs[0].path, "a.txt#chunk1of2");
    assert_eq!(out.blobs[1].path, "a.txt#chunk2of2");
    assert_eq!(out.blobs[2].path, "c.txt");
    let rebuilt: String = out.blobs.iter().map(|b| b.content.as_str()).collect();
    assert_eq!(rebuilt, "x\ny\nz");
}

#[test]
fn a_pass_with_no_failures_records_no_error() {
    let outcomes: Vec<(String, Result<String, String>)> =
        vec![("a".to_string(), Ok("hello\n".to_string()))];
    let out = build_project_blobs(&outcomes, 800);
    assert_eq!(out.skipped_files, 0);
    assert!(out.first_error.is_none());
    assert_eq!(out.blobs.len(), 1);
    assert_eq!(out.blobs[0].path, "a");
}

#[test]
fn metric_names_carry_sizes_and_counts() {
    assert_eq!(single_upload_name(1536, 2), "single-file upload (1.50KB, 2 blobs)");
    assert_eq!(
        project_upload_name(false, 200, 500, 1048576, 420),
        "project upload (sampled 200/500 files, 1.00MB, 420 blobs)"
    );
    assert_eq!(
        project_upload_name(true, 500, 500, 512, 500),
        "project upload (full 500 files, 512B, 500 blobs)"
    );
}
