use spatial_bench_benchers::dataset::{
    counts, counts_in_range, decode_kd_tree, decode_kdtree_f32, decode_kdtree_f64, decode_kiddo32,
    decode_kiddo64, decode_neighbourhood, decode_spade, parse_header, read_words32, split_body64,
    BodyError,
};

fn header(trees: u64, queries: u64, dims: u32) -> Vec<u8> {
    let mut raw = b"SBDS".to_vec();
    raw.extend_from_slice(&2u32.to_ne_bytes());
    raw.extend_from_slice(&dims.to_ne_bytes());
    raw.push(1);
    raw.extend_from_slice(&trees.to_ne_bytes());
    raw.extend_from_slice(&queries.to_ne_bytes());
    raw
}

fn f32_dataset(trees: u64, queries: u64, dims: u32, values: &[f32]) -> Vec<u8> {
    let mut raw = header(trees, queries, dims);
    for v in values {
        raw.extend_from_slice(&v.to_ne_bytes());
    }
    raw
}

fn f64_dataset(trees: u64, queries: u64, dims: u32, values: &[f64]) -> Vec<u8> {
    let mut raw = header(trees, queries, dims);
    for v in values {
        raw.extend_from_slice(&v.to_ne_bytes());
    }
    raw
}

#[test]
fn counts_reads_both_header_counts() {
    let raw = header(65536, 100, 3);
    assert_eq!(raw.len(), 29);
    assert_eq!(counts(&raw), Ok((65536, 100)));
    assert_eq!(parse_header(&raw, false), Some((65536, 100)));
}

#[test]
fn counts_rejects_short_or_unmarked_headers() {
    let raw = header(1, 1, 3);
    assert_eq!(counts(&raw[..28]), Err("invalid dataset header".to_owned()));
    let mut wrong = raw.clone();
    wrong[0] = b'X';
    assert_eq!(counts(&wrong), Err("invalid dataset header".to_owned()));
    assert_eq!(parse_header(&wrong, false), Some((1, 1)));
    assert_eq!(parse_header(&wrong, true), None);
}

#[test]
fn kdtree_f32_splits_points_and_probes() {
    let values = [1.0f32, 2.0, 3.0, 4.0, 5.0, 6.0, -1.5, 0.25, 8.0];
    let raw = f32_dataset(2, 1, 3, &values);
    let (points, probes) = decode_kdtree_f32(&raw).unwrap();
    let bits: Vec<u32> = values.iter().map(|v| v.to_bits()).collect();
    assert_eq!(points, bits[..6].to_vec());
    assert_eq!(probes, bits[6..].to_vec());
}

#[test]
fn kdtree_f32_reports_each_failure() {
    let values = [1.0f32, 2.0, 3.0];
    let mut partial = f32_dataset(1, 0, 3, &values);
    partial.push(0);
    assert_eq!(
        decode_kdtree_f32(&partial),
        Err("dataset body ends partway through an f32".to_owned())
    );
    let short = f32_dataset(1, 1, 3, &values);
    assert_eq!(
        decode_kdtree_f32(&short),
        Err("dataset body length disagrees with header".to_owned())
    );
    assert_eq!(decode_kdtree_f32(b"SBD"), Err("invalid dataset header".to_owned()));
}

#[test]
fn kdtree_f64_splits_points_and_probes() {
    let values = [1.0f64, 2.0, 3.0, 0.5, 0.5, 0.5];
    let raw = f64_dataset(1, 1, 3, &values);
    let (points, probes) = decode_kdtree_f64(&raw).unwrap();
    assert_eq!(points, vec![1.0f64.to_bits(), 2.0f64.to_bits(), 3.0f64.to_bits()]);
    assert_eq!(probes, vec![0.5f64.to_bits(); 3]);
    let mut partial = raw.clone();
    partial.pop();
    assert_eq!(
        decode_kdtree_f64(&partial),
        Err("dataset body ends partway through an f64".to_owned())
    );
}

#[test]
fn kd_tree_folds_body_errors_into_one_message() {
    let values = [1.0f64, 2.0, 3.0];
    let raw = f64_dataset(1, 0, 3, &values);
    assert_eq!(decode_kd_tree(&raw).unwrap().0.len(), 3);
    let mut partial = raw.clone();
    partial.push(7);
    assert_eq!(decode_kd_tree(&partial), Err("dataset body disagrees with header".to_owned()));
    let more = f64_dataset(2, 0, 3, &values);
    assert_eq!(decode_kd_tree(&more), Err("dataset body disagrees with header".to_owned()));
}

#[test]
fn neighbourhood_does_not_check_the_magic() {
    let values = [1.0f32, 2.0, 3.0, 4.0, 5.0, 6.0];
    let mut raw = f32_dataset(1, 1, 3, &values);
    raw[..4].copy_from_slice(b"XXXX");
    let (points, probes) = decode_neighbourhood(&raw).unwrap();
    assert_eq!(points.len(), 3);
    assert_eq!(probes, vec![4.0f32.to_bits(), 5.0f32.to_bits(), 6.0f32.to_bits()]);
    assert_eq!(decode_neighbourhood(&raw[..20]), Err("header".to_owned()));
    assert_eq!(decode_neighbourhood(&raw[..31]), Err("body".to_owned()));
}

#[test]
fn spade_reads_two_dimensional_points() {
    let values = [1.0f64, 2.0, 3.0, 4.0, 9.0, 9.5];
    let raw = f64_dataset(2, 1, 2, &values);
    let (points, probes) = decode_spade(&raw).unwrap();
    assert_eq!(points.len(), 4);
    assert_eq!(probes, vec![9.0f64.to_bits(), 9.5f64.to_bits()]);
    let mut unmarked = raw.clone();
    unmarked[3] = b'Z';
    assert_eq!(decode_spade(&unmarked), Err("header".to_owned()));
    assert_eq!(decode_spade(&raw[..37]), Err("body".to_owned()));
}

#[test]
fn kiddo_reads_the_cases_query_count_and_ignores_the_rest() {
    let values = [1.0f32, 2.0, 3.0, 4.0, 5.0, 6.0, 7.0, 8.0, 9.0];
    let raw = f32_dataset(2, 9, 3, &values);
    // The case asks for one query; the header's count is not consulted.
    let (points, probes) = decode_kiddo32(&raw, 3, 1).unwrap();
    assert_eq!(points.len(), 6);
    assert_eq!(probes, vec![7.0f32.to_bits(), 8.0f32.to_bits(), 9.0f32.to_bits()]);
    // Trailing bytes are left alone.
    let mut longer = raw.clone();
    longer.extend_from_slice(&[1, 2, 3]);
    assert!(decode_kiddo32(&longer, 3, 1).is_some());
    // Asking for more queries than the body holds goes out of bounds.
    assert!(decode_kiddo32(&raw, 3, 2).is_none());
    assert!(decode_kiddo32(&raw[..28], 3, 0).is_none());
}

#[test]
fn kiddo_reads_f64_words() {
    let values = [0.125f64, -2.0];
    let raw = f64_dataset(1, 1, 1, &values);
    let (points, probes) = decode_kiddo64(&raw, 1, 1).unwrap();
    assert_eq!(points, vec![0.125f64.to_bits()]);
    assert_eq!(probes, vec![(-2.0f64).to_bits()]);
    assert!(decode_kiddo64(&raw, 2, 1).is_none());
}

#[test]
fn words_are_read_in_native_byte_order() {
    let raw = [0u8, 0, 0, 0, 0x12, 0x34, 0x56, 0x78];
    assert_eq!(read_words32(&raw, 4, 1), vec![u32::from_ne_bytes([0x12, 0x34, 0x56, 0x78])]);
}

#[test]
fn split_body_checks_words_then_count() {
    let raw = f64_dataset(0, 0, 3, &[1.0]);
    assert_eq!(split_body64(&raw, 0, 0, 3), Err(BodyError::CountMismatch));
    assert_eq!(split_body64(&raw[..33], 0, 0, 3), Err(BodyError::PartialWord));
    assert_eq!(split_body64(&raw, 1, 0, 1), Ok((vec![1.0f64.to_bits()], vec![])));
}

#[test]
fn counts_that_overflow_when_multiplied_out_are_detected() {
    let huge = header(u64::MAX / 2, u64::MAX / 2, 3);
    assert!(!counts_in_range(&huge, 8, 3, true));
    assert!(counts_in_range(&header(10, 10, 3), 8, 3, true));
    let mut odd = huge.clone();
    odd.push(0);
    assert!(counts_in_range(&odd, 8, 3, true));
    assert!(counts_in_range(&huge[..20], 8, 3, true));
}

#[test]
fn kd_tree_and_kdtree_f64_decoders_agree() {
    let values = [1.0f64, 2.0, 3.0, 0.5, -0.5, 4.0];
    let raw = f64_dataset(1, 1, 3, &values);
    assert_eq!(decode_kd_tree(&raw).unwrap(), decode_kdtree_f64(&raw).unwrap());
    let mut bad = raw.clone();
    bad.push(1);
    assert!(decode_kd_tree(&bad).is_err() && decode_kdtree_f64(&bad).is_err());
}
