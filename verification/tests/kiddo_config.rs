use spatial_bench_benchers::kiddo_config::{
    batch_size, batching, block_height, case_settings, executor, parallelism, query_op, Batching,
    KiddoApi, Parallelism, QueryOp, Scalar, Stem,
};

/// The cyclic SIMD strategies require block height 3 for f64 and 4 for f32
/// whatever was declared.
#[test]
fn cyclic_strategies_override_the_declared_block_height() {
    assert_eq!(block_height(Stem::DonnellyCyclicSimdDescent, 3, Scalar::F64), 3);
    assert_eq!(block_height(Stem::DonnellyCyclicSimdDescent, 3, Scalar::F32), 4);
    assert_eq!(block_height(Stem::DonnellyCyclicSimdFull, 3, Scalar::F64), 3);
    assert_eq!(block_height(Stem::DonnellyCyclicSimdFull, 3, Scalar::F32), 4);

    // Even a declaration that would panic is corrected rather than obeyed.
    assert_eq!(block_height(Stem::DonnellyCyclicSimdDescent, 7, Scalar::F32), 4);
}

/// Everything else uses what it was given.
#[test]
fn other_strategies_keep_the_declared_block_height() {
    assert_eq!(block_height(Stem::DonnellyUnrolled, 3, Scalar::F64), 3);
    assert_eq!(block_height(Stem::DonnellyUnrolled, 5, Scalar::F64), 5);
    assert_eq!(block_height(Stem::Eytzinger, 3, Scalar::F32), 3);
}

#[test]
fn every_non_cyclic_stem_keeps_its_block_height() {
    for stem in [
        Stem::Eytzinger,
        Stem::EytzingerNoPf,
        Stem::Donnelly,
        Stem::DonnellyNoPf,
        Stem::DonnellyUnrolled,
        Stem::DonnellyUnrolledBlockDim,
        Stem::DonnellySimdDescent,
        Stem::DonnellySimdFull,
    ] {
        assert_eq!(block_height(stem, 6, Scalar::F32), 6);
        assert_eq!(block_height(stem, 2, Scalar::F64), 2);
    }
}

fn s(text: &str) -> String {
    text.to_string()
}

#[test]
fn query_kinds_select_the_call() {
    assert_eq!(query_op(KiddoApi::V6, &s("exact_nn"), 1), Some(QueryOp::NearestOne));
    assert_eq!(query_op(KiddoApi::V6, &s("exact_nn"), 10), Some(QueryOp::NearestN));
    assert_eq!(query_op(KiddoApi::V6, &s("within_radius"), 1), Some(QueryOp::Within));
    assert_eq!(query_op(KiddoApi::V5, &s("best_n_within"), 4), Some(QueryOp::BestNWithin));
    assert_eq!(query_op(KiddoApi::V5, &s("nearest_n_within"), 4), Some(QueryOp::NearestNWithin));
    assert_eq!(query_op(KiddoApi::V6, &s("nearest_n_within"), 4), None);
    assert_eq!(query_op(KiddoApi::V6, &s("range"), 4), None);
}

#[test]
fn settings_are_read_in_the_drivers_order() {
    let ok = case_settings(KiddoApi::V6, Some(1024), Some(100), None, Some(s("exact_nn")), None)
        .unwrap();
    assert_eq!((ok.tree_size, ok.query_count, ok.k, ok.query.as_str()), (1024, 100, 1, "exact_nn"));
    assert_eq!(ok.op, QueryOp::NearestOne);

    let with_k = case_settings(KiddoApi::V6, Some(8), Some(2), Some(5), Some(s("exact_nn")), None)
        .unwrap();
    assert_eq!(with_k.k, 5);
    assert_eq!(with_k.op, QueryOp::NearestN);

    assert_eq!(
        case_settings(KiddoApi::V6, None, None, Some(0), None, None).err().unwrap(),
        "tree_size is missing or not an integer"
    );
    assert_eq!(
        case_settings(KiddoApi::V6, Some(1), None, Some(0), None, None).err().unwrap(),
        "query_count is missing or not an integer"
    );
    assert_eq!(
        case_settings(KiddoApi::V6, Some(1), Some(1), Some(0), None, None).err().unwrap(),
        "k must be greater than zero"
    );
    assert_eq!(
        case_settings(KiddoApi::V6, Some(1), Some(1), Some(3), None, None).err().unwrap(),
        "query is missing"
    );
}

#[test]
fn a_query_the_api_cannot_implement_is_refused() {
    assert_eq!(
        case_settings(KiddoApi::V6, Some(1), Some(1), None, Some(s("nearest_n_within")), None)
            .err()
            .unwrap(),
        "unsupported query `nearest_n_within`"
    );
    assert_eq!(
        case_settings(KiddoApi::V5, Some(1), Some(1), None, Some(s("range")), None).err().unwrap(),
        "unsupported query `range`"
    );
    let v5 = case_settings(KiddoApi::V5, Some(1), Some(1), Some(3), Some(s("nearest_n_within")), None)
        .unwrap();
    assert_eq!(v5.op, QueryOp::NearestNWithin);
}

#[test]
fn kiddo_v5_refuses_batched_cases_only() {
    let batched = Some(s("batch_query"));
    assert_eq!(
        case_settings(KiddoApi::V5, Some(1), Some(1), None, Some(s("exact_nn")), batched.clone())
            .err()
            .unwrap(),
        "kiddo 5.x has no batch API; query_batching must be \\\n                         single_query, got `batch_query`"
    );
    assert!(case_settings(KiddoApi::V6, Some(1), Some(1), None, Some(s("exact_nn")), batched).is_ok());
    assert!(case_settings(
        KiddoApi::V5,
        Some(1),
        Some(1),
        None,
        Some(s("exact_nn")),
        Some(s("single_query"))
    )
    .is_ok());
}

#[test]
fn batching_and_parallelism_tags() {
    assert_eq!(batching(&None), Batching::Single);
    assert_eq!(batching(&Some(s("single_query"))), Batching::Single);
    assert_eq!(batching(&Some(s("batch_query"))), Batching::Batch);
    assert_eq!(batching(&Some(s("chunked"))), Batching::Unknown);
    assert_eq!(parallelism(&None), Parallelism::Serial);
    assert_eq!(parallelism(&Some(s("multi_threaded"))), Parallelism::Parallel);
    assert_eq!(parallelism(&Some(s("gpu"))), Parallelism::Unknown);
}

#[test]
fn batch_size_defaults_to_all_queries_and_is_at_least_one() {
    assert_eq!(batch_size(None, 500), 500);
    assert_eq!(batch_size(Some(64), 500), 64);
    assert_eq!(batch_size(Some(0), 500), 1);
    assert_eq!(batch_size(None, 0), 1);
}

#[test]
fn executors_follow_the_parallelism_tag() {
    assert!(executor(Parallelism::Serial).unwrap().inner == kiddo::batch::Executor::serial());
    assert!(executor(Parallelism::Parallel).unwrap().inner == kiddo::batch::Executor::parallel());
    assert!(executor(Parallelism::Serial).unwrap().inner != kiddo::batch::Executor::parallel());
    assert!(executor(Parallelism::Unknown).is_none());
}
