use spatial_bench_benchers::registry::{find, has_tag, listing, sorted_pairs, Listing};

fn pairs(items: &[(&str, &str)]) -> Vec<(String, String)> {
    items.iter().map(|(k, v)| (k.to_string(), v.to_string())).collect()
}

#[test]
fn tags_are_looked_up_by_key() {
    let tags = pairs(&[("axis", "f64"), ("k", "1")]);
    assert!(has_tag(&tags, &"axis".to_string(), &"f64".to_string()));
    assert!(!has_tag(&tags, &"axis".to_string(), &"f32".to_string()));
    assert!(!has_tag(&tags, &"dims".to_string(), &"3".to_string()));
}

#[test]
fn find_returns_the_first_registration_the_tags_satisfy() {
    let registrations = vec![
        pairs(&[("axis", "f32")]),
        pairs(&[("axis", "f64")]),
        pairs(&[("axis", "f64"), ("dims", "3")]),
    ];
    let tags = pairs(&[("impl", "kdtree"), ("dims", "3"), ("axis", "f64")]);
    assert_eq!(find(&registrations, &tags), Some(1));
    let f32_tags = pairs(&[("axis", "f32")]);
    assert_eq!(find(&registrations, &f32_tags), Some(0));
    let none = pairs(&[("axis", "f16")]);
    assert_eq!(find(&registrations, &none), None);
    assert_eq!(find(&vec![], &tags), None);
}

#[test]
fn a_registration_without_pairs_serves_every_case() {
    let registrations = vec![vec![]];
    assert_eq!(find(&registrations, &pairs(&[("axis", "f64")])), Some(0));
}

#[test]
fn sorting_orders_by_key_then_value() {
    let declared = pairs(&[
        ("kiddo.stem", "eytzinger"),
        ("axis", "f64"),
        ("kiddo.block_height", "3"),
        ("dims", "3"),
        ("idx", "u32"),
    ]);
    let sorted = sorted_pairs(&declared);
    assert_eq!(
        sorted,
        pairs(&[
            ("axis", "f64"),
            ("dims", "3"),
            ("idx", "u32"),
            ("kiddo.block_height", "3"),
            ("kiddo.stem", "eytzinger"),
        ])
    );
    let mut expected = declared.clone();
    expected.sort();
    assert_eq!(sorted, expected);
    assert_eq!(sorted_pairs(&pairs(&[("a", "2"), ("a", "1"), ("", "z")])), pairs(&[("", "z"), ("a", "1"), ("a", "2")]));
}

#[test]
fn sorted_listing_does_not_depend_on_declaration_order() {
    let one = vec![pairs(&[("dims", "3"), ("axis", "f32"), ("idx", "u64")])];
    let other = vec![pairs(&[("idx", "u64"), ("dims", "3"), ("axis", "f32")])];
    assert_eq!(listing(Listing::Sorted, &one), listing(Listing::Sorted, &other));
}

#[test]
fn listing_styles() {
    let registrations = vec![pairs(&[("axis", "f64")]), pairs(&[("b", "2"), ("a", "1")])];
    assert_eq!(listing(Listing::AsDeclared, &registrations), registrations);
    assert_eq!(
        listing(Listing::Sorted, &registrations),
        vec![pairs(&[("axis", "f64")]), pairs(&[("a", "1"), ("b", "2")])]
    );
    assert_eq!(listing(Listing::Empty, &registrations), vec![vec![], vec![]]);
}
