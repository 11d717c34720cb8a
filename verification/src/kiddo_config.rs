//! How the kiddo drivers read a case's tags: the strategies and block
//! heights compiled, the case's sizes and query, and how queries are
//! batched and executed.
use vstd::prelude::*;
use vstd::string::StringExecFns;

verus! {

/// The scalar type of a kiddo tree's coordinates (the `axis` tag).
#[derive(Clone, Copy, Debug, PartialEq, Eq, Structural)]
pub enum Scalar {
    F32,
    F64,
}

/// kiddo's stem ordering strategies, one per `kiddo.stem` tag value.
#[derive(Clone, Copy, Debug, PartialEq, Eq, Structural)]
pub enum Stem {
    Eytzinger,
    EytzingerNoPf,
    Donnelly,
    DonnellyNoPf,
    DonnellyUnrolled,
    DonnellyUnrolledBlockDim,
    DonnellySimdDescent,
    DonnellySimdFull,
    DonnellyCyclicSimdDescent,
    DonnellyCyclicSimdFull,
}

impl Stem {
    /// The cyclic SIMD strategies, whose block height is fixed by the scalar.
    pub open spec fn is_cyclic(self) -> bool {
        self == Stem::DonnellyCyclicSimdDescent || self == Stem::DonnellyCyclicSimdFull
    }
}

/// The block height a cyclic SIMD strategy requires for a scalar type.
pub open spec fn cyclic_block_height(axis: Scalar) -> usize {
    match axis {
        Scalar::F64 => 3,
        Scalar::F32 => 4,
    }
}

/// The block height actually compiled for `stem`, given the declared one.
///
/// The cyclic SIMD strategies require 3 for `f64` and 4 for `f32`, whatever
/// was declared; every other strategy compiles the declared height.
pub fn block_height(stem: Stem, declared: usize, axis: Scalar) -> (bh: usize)
    ensures
        stem.is_cyclic() ==> bh == cyclic_block_height(axis),
        !stem.is_cyclic() ==> bh == declared,
{
    match stem {
        Stem::DonnellyCyclicSimdDescent | Stem::DonnellyCyclicSimdFull => match axis {
            Scalar::F64 => 3,
            Scalar::F32 => 4,
        },
        _ => declared,
    }
}


/// An optional tag word as characters.
pub open spec fn opt_view(tag: &Option<String>) -> Option<Seq<char>> {
    match tag {
        Some(t) => Some(t@),
        None => None,
    }
}

/// The result count a case asks for: its `k` tag as a `usize`, or 1 where it
/// has none.
pub open spec fn k_value(k: Option<i64>) -> usize {
    match k {
        Some(v) => v as usize,
        None => 1,
    }
}

/// Which kiddo API a driver speaks.
#[derive(Clone, Copy, Debug, PartialEq, Eq, Structural)]
pub enum KiddoApi {
    /// kiddo 5.x: methods on the tree, single queries only.
    V5,
    /// kiddo 6: the query builder and the batch API.
    V6,
}

/// The query a case measures, as the driver calls it.
#[derive(Clone, Copy, Debug, PartialEq, Eq, Structural)]
pub enum QueryOp {
    /// `nearest_one` (an exact nearest-neighbour query with `k` of 1).
    NearestOne,
    /// `nearest_n` with `k`.
    NearestN,
    /// `within` the case's radius.
    Within,
    /// `best_n_within` the case's radius.
    BestNWithin,
    /// `nearest_n_within` the case's radius (kiddo 5.x only).
    NearestNWithin,
}

/// The call a probe gets for a `query` tag and `k`; `None` for a query
/// kind the driver's API does not implement.
pub open spec fn spec_query_op(api: KiddoApi, query: Seq<char>, k: usize) -> Option<QueryOp> {
    if query == "exact_nn"@ {
        if k == 1 {
            Some(QueryOp::NearestOne)
        } else {
            Some(QueryOp::NearestN)
        }
    } else if query == "within_radius"@ {
        Some(QueryOp::Within)
    } else if query == "best_n_within"@ {
        Some(QueryOp::BestNWithin)
    } else if api == KiddoApi::V5 && query == "nearest_n_within"@ {
        Some(QueryOp::NearestNWithin)
    } else {
        None
    }
}

/// The call a probe gets for the case's `query` tag and `k`, or `None` when
/// the driver cannot implement that query.
pub fn query_op(api: KiddoApi, query: &String, k: usize) -> (op: Option<QueryOp>)
    ensures
        op == spec_query_op(api, query@, k),
{
    if *query == "exact_nn".to_owned() {
        if k == 1 {
            Some(QueryOp::NearestOne)
        } else {
            Some(QueryOp::NearestN)
        }
    } else if *query == "within_radius".to_owned() {
        Some(QueryOp::Within)
    } else if *query == "best_n_within".to_owned() {
        Some(QueryOp::BestNWithin)
    } else if api == KiddoApi::V5 && *query == "nearest_n_within".to_owned() {
        Some(QueryOp::NearestNWithin)
    } else {
        None
    }
}

/// The case settings a kiddo driver reads before generating its dataset.
pub struct CaseSettings {
    /// The number of tree points (`tree_size`).
    pub tree_size: usize,
    /// The number of query points (`query_count`).
    pub query_count: usize,
    /// The result count (`k`, 1 where the case has none), never 0.
    pub k: usize,
    /// The query kind (`query`).
    pub query: String,
    /// The call each probe gets.
    pub op: QueryOp,
}

/// The message a case whose query the driver cannot implement is refused
/// with.
pub open spec fn unsupported_query_message(query: Seq<char>) -> Seq<char> {
    "unsupported query `"@ + query + "`"@
}

/// The message kiddo 5.x refuses a batched case with.
pub open spec fn v5_batching_message(batching: Seq<char>) -> Seq<char> {
    "kiddo 5.x has no batch API; query_batching must be \\\n                         single_query, got `"@ + batching + "`"@
}

/// What reading the settings fails with, if anything: the first of the
/// checks the driver makes, in its order.
pub open spec fn settings_error(
    api: KiddoApi,
    tree_size: Option<i64>,
    query_count: Option<i64>,
    k: Option<i64>,
    query: Option<Seq<char>>,
    batching: Option<Seq<char>>,
) -> Option<Seq<char>> {
    if tree_size is None {
        Some("tree_size is missing or not an integer"@)
    } else if query_count is None {
        Some("query_count is missing or not an integer"@)
    } else if k_value(k) == 0 {
        Some("k must be greater than zero"@)
    } else if query is None {
        Some("query is missing"@)
    } else if spec_query_op(api, query.unwrap(), k_value(k)) is None {
        Some(unsupported_query_message(query.unwrap()))
    } else if api == KiddoApi::V5 && batching is Some && batching.unwrap() != "single_query"@ {
        Some(v5_batching_message(batching.unwrap()))
    } else {
        None
    }
}

/// Reads a kiddo case's settings from its tags (`None` where the tag is
/// absent or of the wrong kind), refusing a case whose query the driver's
/// API cannot implement. kiddo 5.x also refuses any batching but single
/// queries.
pub fn case_settings(
    api: KiddoApi,
    tree_size: Option<i64>,
    query_count: Option<i64>,
    k: Option<i64>,
    query: Option<String>,
    batching: Option<String>,
) -> (res: Result<CaseSettings, String>)
    ensures
        match res {
            Err(e) => settings_error(
                api,
                tree_size,
                query_count,
                k,
                opt_view(&query),
                opt_view(&batching),
            ) == Some(e@),
            Ok(s) => {
                &&& settings_error(
                    api,
                    tree_size,
                    query_count,
                    k,
                    opt_view(&query),
                    opt_view(&batching),
                ) is None
                &&& s.tree_size == tree_size.unwrap() as usize
                &&& s.query_count == query_count.unwrap() as usize
                &&& s.k == k_value(k)
                &&& s.query@ == query.unwrap()@
                &&& Some(s.op) == spec_query_op(api, query.unwrap()@, k_value(k))
            },
        },
{
    let tree_size = match tree_size {
        Some(v) => v as usize,
        None => return Err("tree_size is missing or not an integer".to_owned()),
    };
    let query_count = match query_count {
        Some(v) => v as usize,
        None => return Err("query_count is missing or not an integer".to_owned()),
    };
    let k = match k {
        Some(v) => v as usize,
        None => 1,
    };
    if k == 0 {
        return Err("k must be greater than zero".to_owned());
    }
    let query = match query {
        Some(q) => q,
        None => return Err("query is missing".to_owned()),
    };
    let op = match query_op(api, &query, k) {
        Some(op) => op,
        None => {
            let mut message = "unsupported query `".to_owned();
            message.append(query.as_str());
            message.append("`");
            return Err(message);
        },
    };
    if api == KiddoApi::V5 {
        if let Some(b) = batching {
            if b != "single_query".to_owned() {
                let mut message = "kiddo 5.x has no batch API; query_batching must be \\\n                         single_query, got `".to_owned();
                message.append(b.as_str());
                message.append("`");
                return Err(message);
            }
        }
    }
    Ok(CaseSettings { tree_size, query_count, k, query, op })
}

/// How a case's probes are fed to the tree (`query_batching`).
#[derive(Clone, Copy, Debug, PartialEq, Eq, Structural)]
pub enum Batching {
    /// One query call per probe (`single_query`, the default).
    Single,
    /// The batch API over chunks of probes (`batch_query`).
    Batch,
    /// Any other value, which the driver cannot measure.
    Unknown,
}

pub open spec fn spec_batching(tag: Option<Seq<char>>) -> Batching {
    match tag {
        None => Batching::Single,
        Some(t) => if t == "single_query"@ {
            Batching::Single
        } else if t == "batch_query"@ {
            Batching::Batch
        } else {
            Batching::Unknown
        },
    }
}

/// The batching a `query_batching` tag names.
pub fn batching(tag: &Option<String>) -> (b: Batching)
    ensures
        b == spec_batching(opt_view(tag)),
{
    match tag {
        None => Batching::Single,
        Some(t) => if *t == "single_query".to_owned() {
            Batching::Single
        } else if *t == "batch_query".to_owned() {
            Batching::Batch
        } else {
            Batching::Unknown
        },
    }
}

/// Which executor runs a batch (`parallelism`).
#[derive(Clone, Copy, Debug, PartialEq, Eq, Structural)]
pub enum Parallelism {
    /// The calling thread (`single_threaded`, the default).
    Serial,
    /// Rayon's global pool (`multi_threaded`).
    Parallel,
    /// Any other value, which the driver refuses.
    Unknown,
}

pub open spec fn spec_parallelism(tag: Option<Seq<char>>) -> Parallelism {
    match tag {
        None => Parallelism::Serial,
        Some(t) => if t == "single_threaded"@ {
            Parallelism::Serial
        } else if t == "multi_threaded"@ {
            Parallelism::Parallel
        } else {
            Parallelism::Unknown
        },
    }
}

/// The parallelism a `parallelism` tag names.
pub fn parallelism(tag: &Option<String>) -> (p: Parallelism)
    ensures
        p == spec_parallelism(opt_view(tag)),
{
    match tag {
        None => Parallelism::Serial,
        Some(t) => if *t == "single_threaded".to_owned() {
            Parallelism::Serial
        } else if *t == "multi_threaded".to_owned() {
            Parallelism::Parallel
        } else {
            Parallelism::Unknown
        },
    }
}

/// The number of probes per batch call: the `query_batch_size` tag, or all
/// the queries where it is absent, and at least one.
pub fn batch_size(tag: Option<i64>, queries: usize) -> (size: usize)
    ensures
        size == if tag is Some && (tag.unwrap() as usize) >= 1 {
            tag.unwrap() as usize
        } else if tag is None && queries >= 1 {
            queries
        } else {
            1
        },
{
    let size = match tag {
        Some(v) => v as usize,
        None => queries,
    };
    if size < 1 {
        1
    } else {
        size
    }
}


/// kiddo's batch executor, carried through unopened.
#[verifier::external_type_specification]
#[verifier::external_body]
pub struct ExKiddoExecutor(kiddo::batch::Executor);

/// A kiddo batch executor together with the parallelism it was made for.
pub struct KiddoExecutor {
    /// The executor handed to kiddo's batch queries.
    pub inner: kiddo::batch::Executor,
    kind: Ghost<Parallelism>,
}

impl KiddoExecutor {
    /// The parallelism of the kiddo constructor that made `inner`.
    pub closed spec fn kind(&self) -> Parallelism {
        self.kind@
    }
}

/// `kiddo::batch::Executor::serial`: an executor that runs every query of a
/// batch on the calling thread; what is stated is only that it comes from
/// that constructor.
#[verifier::external_body]
fn serial_executor() -> (e: KiddoExecutor)
    ensures
        e.kind() == Parallelism::Serial,
{
    KiddoExecutor { inner: kiddo::batch::Executor::serial(), kind: Ghost(Parallelism::Serial) }
}

/// `kiddo::batch::Executor::parallel`: an executor that may spread a batch's
/// queries over Rayon's global pool; what is stated is only that it comes
/// from that constructor.
#[verifier::external_body]
fn parallel_executor() -> (e: KiddoExecutor)
    ensures
        e.kind() == Parallelism::Parallel,
{
    KiddoExecutor { inner: kiddo::batch::Executor::parallel(), kind: Ghost(Parallelism::Parallel) }
}

/// The executor for a parallelism setting: kiddo's serial executor for
/// `Serial`, its parallel one for `Parallel`, and none for a setting the
/// driver does not know.
pub fn executor(p: Parallelism) -> (e: Option<KiddoExecutor>)
    ensures
        e is None <==> p == Parallelism::Unknown,
        e matches Some(x) ==> x.kind() == p,
{
    match p {
        Parallelism::Serial => Some(serial_executor()),
        Parallelism::Parallel => Some(parallel_executor()),
        Parallelism::Unknown => None,
    }
}


/// Which call each query tag selects, for both APIs and every `k`:
/// `exact_nn` gives `nearest_one` when `k` is 1 and `nearest_n` otherwise,
/// `within_radius` gives `within`, `best_n_within` gives `best_n_within`,
/// and `nearest_n_within` is implemented by kiddo 5.x only.
pub proof fn lemma_query_tags(api: KiddoApi, k: usize)
    ensures
        spec_query_op(api, "exact_nn"@, k) == Some(if k == 1 { QueryOp::NearestOne } else { QueryOp::NearestN }),
        spec_query_op(api, "within_radius"@, k) == Some(QueryOp::Within),
        spec_query_op(api, "best_n_within"@, k) == Some(QueryOp::BestNWithin),
        spec_query_op(api, "nearest_n_within"@, k) == if api == KiddoApi::V5 { Some(QueryOp::NearestNWithin) } else { None },
{
    reveal_strlit("exact_nn");
    reveal_strlit("within_radius");
    reveal_strlit("best_n_within");
    reveal_strlit("nearest_n_within");
    assert("within_radius"@[0] != "exact_nn"@[0]);
    assert("best_n_within"@[0] != "exact_nn"@[0]);
    assert("best_n_within"@[0] != "within_radius"@[0]);
    assert("nearest_n_within"@.len() != "exact_nn"@.len());
    assert("nearest_n_within"@.len() != "within_radius"@.len());
    assert("nearest_n_within"@.len() != "best_n_within"@.len());
}

/// The executor each `parallelism` tag names, for every tag: the parallel
/// one exactly for `multi_threaded`, the serial one exactly for
/// `single_threaded` or no tag, and none for anything else.
pub proof fn lemma_parallelism_tags(tag: Option<Seq<char>>)
    ensures
        spec_parallelism(tag) == Parallelism::Parallel <==> tag == Some("multi_threaded"@),
        spec_parallelism(tag) == Parallelism::Serial <==> (tag is None || tag == Some("single_threaded"@)),
        spec_parallelism(tag) == Parallelism::Unknown <==> (tag is Some && tag != Some("multi_threaded"@) && tag != Some("single_threaded"@)),
{
    reveal_strlit("multi_threaded");
    reveal_strlit("single_threaded");
    assert("multi_threaded"@[0] != "single_threaded"@[0]);
}

/// How each `query_batching` tag feeds the probes, for every tag: one call
/// per probe for `single_query` or no tag, the batch API exactly for
/// `batch_query`, and nothing the driver can measure otherwise.
pub proof fn lemma_batching_tags(tag: Option<Seq<char>>)
    ensures
        spec_batching(tag) == Batching::Batch <==> tag == Some("batch_query"@),
        spec_batching(tag) == Batching::Single <==> (tag is None || tag == Some("single_query"@)),
        spec_batching(tag) == Batching::Unknown <==> (tag is Some && tag != Some("batch_query"@) && tag != Some("single_query"@)),
{
    reveal_strlit("batch_query");
    reveal_strlit("single_query");
    assert("batch_query"@[0] != "single_query"@[0]);
}


/// Any other query tag selects no call, so the case is refused.
pub proof fn lemma_unknown_query_tags(api: KiddoApi, query: Seq<char>, k: usize)
    requires
        query != "exact_nn"@,
        query != "within_radius"@,
        query != "best_n_within"@,
        query != "nearest_n_within"@,
    ensures
        spec_query_op(api, query, k) is None,
{
}

/// The block heights compiled, for every stem and declared height: the two
/// cyclic SIMD stems, and only they, get 3 for `f64` and 4 for `f32`; every
/// other stem gets the declared height.
pub proof fn lemma_block_heights(stem: Stem, declared: usize)
    ensures
        stem.is_cyclic() <==> (stem == Stem::DonnellyCyclicSimdDescent || stem == Stem::DonnellyCyclicSimdFull),
        cyclic_block_height(Scalar::F64) == 3,
        cyclic_block_height(Scalar::F32) == 4,
{
}

/// The checks a kiddo case's settings pass, in the drivers' order, for every
/// input: a missing `tree_size`, then a missing `query_count`, then a `k` of
/// 0 (an absent `k` counts as 1), then a missing `query`, then a query the
/// API does not implement, and on kiddo 5.x a batching other than
/// `single_query`; a case passing all of them is accepted.
pub proof fn lemma_settings_checks(
    api: KiddoApi,
    tree_size: Option<i64>,
    query_count: Option<i64>,
    k: Option<i64>,
    query: Option<Seq<char>>,
    batching: Option<Seq<char>>,
)
    ensures
        k_value(None) == 1,
        k matches Some(v) ==> k_value(k) == v as usize,
        tree_size is None ==> settings_error(api, tree_size, query_count, k, query, batching) == Some("tree_size is missing or not an integer"@),
        tree_size is Some && query_count is None ==> settings_error(api, tree_size, query_count, k, query, batching) == Some("query_count is missing or not an integer"@),
        tree_size is Some && query_count is Some && k == Some(0i64) ==> settings_error(api, tree_size, query_count, k, query, batching) == Some("k must be greater than zero"@),
        tree_size is Some && query_count is Some && k_value(k) != 0 && query is None ==> settings_error(api, tree_size, query_count, k, query, batching) == Some("query is missing"@),
        tree_size is Some && query_count is Some && k_value(k) != 0 && query is Some && spec_query_op(api, query.unwrap(), k_value(k)) is None ==> settings_error(api, tree_size, query_count, k, query, batching) == Some("unsupported query `"@ + query.unwrap() + "`"@),
        tree_size is Some && query_count is Some && k_value(k) != 0 && query is Some && spec_query_op(api, query.unwrap(), k_value(k)) is Some ==> (settings_error(api, tree_size, query_count, k, query, batching) is None <==> (api == KiddoApi::V6 || batching is None || batching == Some("single_query"@))),
{
}

} // verus!
