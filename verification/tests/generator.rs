use spatial_bench_benchers::generator::{
    case_counts, decimal_i64, decimal_u64, generator_args, required_k, Wording,
};

#[test]
fn decimal_matches_to_string() {
    for n in [0u64, 7, 10, 65536, 1_000_000_007, u64::MAX] {
        assert_eq!(decimal_u64(n), n.to_string());
    }
    for n in [0i64, -1, 42, -65536, i64::MAX, i64::MIN] {
        assert_eq!(decimal_i64(n), n.to_string());
    }
}

#[test]
fn generator_flags_come_in_protocol_order() {
    let s = |t: &str| t.to_string();
    assert_eq!(
        generator_args(&s("uniform"), &s("3"), &s("f64"), &s("65536"), &s("100"), &s("7")),
        vec![
            s("--kind"),
            s("uniform"),
            s("--dims"),
            s("3"),
            s("--dtype"),
            s("f64"),
            s("--tree-count"),
            s("65536"),
            s("--query-count"),
            s("100"),
            s("--seed"),
            s("7"),
        ]
    );
}

#[test]
fn count_tags_are_read_with_each_drivers_wording() {
    assert_eq!(case_counts(Some(65536), Some(100), Wording::Full), Ok((65536, 100)));
    assert_eq!(case_counts(None, None, Wording::Full), Err("tree_size is missing".to_string()));
    assert_eq!(case_counts(Some(1), None, Wording::Full), Err("query_count is missing".to_string()));
    assert_eq!(case_counts(None, Some(1), Wording::Terse), Err("tree_size".to_string()));
    assert_eq!(case_counts(Some(1), None, Wording::Terse), Err("query_count".to_string()));
    assert_eq!(required_k(Some(10)), Ok(10));
    assert_eq!(required_k(None), Err("k is missing".to_string()));
}
