use acemcp_core::batch::UploadBatcher;
use acemcp_core::batch::plan_batches;
use acemcp_core::chunk::UploadBlob;
use acemcp_core::chunk::split_content_for_speed_test;

fn lines_of(s: &str) -> usize {
    s.split_inclusive('\n').count()
}

#[test]
fn two_thousand_lines_make_three_chunks() {
    let mut content = String::new();
    for i in 0..2000 {
        content.push_str(&format!("line {}\n", i));
    }
    let blobs = split_content_for_speed_test("src/big.rs", &content, 800).unwrap();
    assert_eq!(blobs.len(), 3);
    assert_eq!(blobs[0].path, "src/big.rs#chunk1of3");
    assert_eq!(blobs[1].path, "src/big.rs#chunk2of3");
    assert_eq!(blobs[2].path, "src/big.rs#chunk3of3");
    assert_eq!(lines_of(&blobs[0].content), 800);
    assert_eq!(lines_of(&blobs[1].content), 800);
    assert_eq!(lines_of(&blobs[2].content), 400);
    let rebuilt: String = blobs.iter().map(|b| b.content.as_str()).collect();
    assert_eq!(rebuilt, content);
}

#[test]
fn small_file_is_one_blob_under_its_own_path() {
    let content = "a\nb\nc\n";
    let blobs = split_content_for_speed_test("lib.rs", content, 800).unwrap();
    assert_eq!(blobs.len(), 1);
    assert_eq!(blobs[0].path, "lib.rs");
    assert_eq!(blobs[0].content, content);
}

#[test]
fn boundary_file_is_still_one_blob() {
    let content = "a\nb\nc";
    let blobs = split_content_for_speed_test("x", content, 3).unwrap();
    assert_eq!(blobs.len(), 1);
    assert_eq!(blobs[0].path, "x");
    assert_eq!(blobs[0].content, content);
}

#[test]
fn chunk_markers_are_one_based_and_contiguous() {
    let content = "a\nb\nc\nd\ne";
    let blobs = split_content_for_speed_test("f", content, 2).unwrap();
    assert_eq!(blobs.len(), 3);
    for (k, b) in blobs.iter().enumerate() {
        assert_eq!(b.path, format!("f#chunk{}of3", k + 1));
    }
    let rebuilt: String = blobs.iter().map(|b| b.content.as_str()).collect();
    assert_eq!(rebuilt, content);
}

#[test]
fn trailing_text_without_newline_stays_intact() {
    let content = "one\ntwo\nthree";
    let blobs = split_content_for_speed_test("f", content, 2).unwrap();
    assert_eq!(blobs.len(), 2);
    assert_eq!(blobs[0].content, "one\ntwo\n");
    assert_eq!(blobs[1].content, "three");
}

#[test]
fn empty_content_is_not_silently_dropped() {
    let blobs = split_content_for_speed_test("empty.txt", "", 800).unwrap();
    assert_eq!(blobs.len(), 1);
    assert_eq!(blobs[0].path, "empty.txt");
    assert_eq!(blobs[0].content, "");
}

#[test]
fn zero_max_lines_is_a_configuration_error() {
    let r = split_content_for_speed_test("f", "a\nb\n", 0);
    assert!(r.is_err());
    assert_eq!(r.unwrap_err(), "max_lines_per_blob must be positive");
}

fn blob(n: usize) -> UploadBlob {
    UploadBlob { path: format!("p{}", n), content: format!("c{}", n) }
}

#[test]
fn batches_fill_up_and_keep_the_remainder() {
    let blobs: Vec<UploadBlob> = (0..7).map(blob).collect();
    let batches = plan_batches(&blobs, 3);
    assert_eq!(batches.len(), 3);
    assert_eq!(batches[0].len(), 3);
    assert_eq!(batches[1].len(), 3);
    assert_eq!(batches[2].len(), 1);
    let flat: Vec<UploadBlob> = batches.into_iter().flatten().collect();
    assert_eq!(flat, blobs);
}

#[test]
fn no_blobs_means_no_batches() {
    let batches = plan_batches(&Vec::new(), 10);
    assert!(batches.is_empty());
}

#[test]
fn batcher_flushes_on_full_batch_and_at_stream_end() {
    let mut batcher = UploadBatcher::new(2);
    assert!(batcher.push(blob(0)).is_none());
    let first = batcher.push(blob(1)).expect("a full batch flushes");
    assert_eq!(first.len(), 2);
    assert_eq!(first[0].path, "p0");
    assert_eq!(first[1].path, "p1");
    assert!(batcher.push(blob(2)).is_none());
    let rest = batcher.finish().expect("the remainder flushes at stream end");
    assert_eq!(rest.len(), 1);
    assert_eq!(rest[0].path, "p2");
    assert!(batcher.finish().is_none());
}
