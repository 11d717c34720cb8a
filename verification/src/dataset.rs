//! The SBDS dataset format written by the shared input generator.
//!
//! A dataset is a 29-byte header (`SBDS`, a `u32` version, a `u32` dimension
//! count, a `u8` dtype, then the tree-point count at bytes 13..21 and the
//! query count at bytes 21..29, both `u64` in native byte order) followed by a
//! body of coordinates: every tree point, then every query point, each
//! coordinate a 4- or 8-byte word in native byte order.
//!
//! Coordinates are returned as the raw words; turning a word into an `f32` or
//! `f64` (`from_bits`) is left to the caller.
use vstd::prelude::*;

verus! {

/// Length of the SBDS header; the body starts here.
pub const HEADER_LEN: usize = 29;

/// The value of `s` read as a little-endian unsigned integer.
pub open spec fn le_value(s: Seq<u8>) -> nat
    decreases s.len(),
{
    if s.len() == 0 {
        0
    } else {
        s[0] as nat + 256 * le_value(s.subrange(1, s.len() as int))
    }
}

/// The value of `s` read as a big-endian unsigned integer.
pub open spec fn be_value(s: Seq<u8>) -> nat {
    le_value(s.reverse())
}

/// The value of `s` read in the byte order of the machine running the code.
pub open spec fn ne_value(s: Seq<u8>) -> nat {
    match vstd::endian::endianness() {
        vstd::endian::Endian::Little => le_value(s),
        vstd::endian::Endian::Big => be_value(s),
    }
}

/// The `width`-byte word that starts at byte `pos` of `raw`.
pub open spec fn word_at(raw: Seq<u8>, pos: int, width: int) -> nat {
    ne_value(raw.subrange(pos, pos + width))
}

/// Whether `raw` starts with the magic bytes `SBDS`.
pub open spec fn has_magic(raw: Seq<u8>) -> bool {
    &&& raw.len() >= 4
    &&& raw[0] == 0x53u8
    &&& raw[1] == 0x42u8
    &&& raw[2] == 0x44u8
    &&& raw[3] == 0x53u8
}

/// The tree-point count recorded in the header, as a `usize`.
pub open spec fn header_tree_count(raw: Seq<u8>) -> usize {
    (word_at(raw, 13, 8) as u64) as usize
}

/// The query-point count recorded in the header, as a `usize`.
pub open spec fn header_query_count(raw: Seq<u8>) -> usize {
    (word_at(raw, 21, 8) as u64) as usize
}

/// `u32::from_ne_bytes`: the integer whose memory representation in the
/// machine's byte order is `bytes`.
#[verifier::external_body]
fn u32_from_ne(bytes: [u8; 4]) -> (w: u32)
    ensures
        w as nat == ne_value(bytes@),
{
    u32::from_ne_bytes(bytes)
}

/// `u64::from_ne_bytes`: the integer whose memory representation in the
/// machine's byte order is `bytes`.
#[verifier::external_body]
fn u64_from_ne(bytes: [u8; 8]) -> (w: u64)
    ensures
        w as nat == ne_value(bytes@),
{
    u64::from_ne_bytes(bytes)
}

/// The 4-byte word at `pos`.
fn word32(raw: &[u8], pos: usize) -> (w: u32)
    requires
        pos + 4 <= raw@.len(),
    ensures
        w as nat == word_at(raw@, pos as int, 4),
{
    let bytes: [u8; 4] = [raw[pos], raw[pos + 1], raw[pos + 2], raw[pos + 3]];
    assert(bytes@ =~= raw@.subrange(pos as int, pos + 4));
    u32_from_ne(bytes)
}

/// The 8-byte word at `pos`.
fn word64(raw: &[u8], pos: usize) -> (w: u64)
    requires
        pos + 8 <= raw@.len(),
    ensures
        w as nat == word_at(raw@, pos as int, 8),
{
    let bytes: [u8; 8] = [
        raw[pos],
        raw[pos + 1],
        raw[pos + 2],
        raw[pos + 3],
        raw[pos + 4],
        raw[pos + 5],
        raw[pos + 6],
        raw[pos + 7],
    ];
    assert(bytes@ =~= raw@.subrange(pos as int, pos + 8));
    u64_from_ne(bytes)
}


/// Reads `count` consecutive 4-byte words, the first at byte `start`.
pub fn read_words32(raw: &[u8], start: usize, count: usize) -> (words: Vec<u32>)
    requires
        start + 4 * count <= raw@.len(),
    ensures
        words@.len() == count,
        forall|i: int| 0 <= i < count ==> words@[i] as nat == word_at(raw@, start + 4 * i, 4),
{
    let mut words: Vec<u32> = Vec::with_capacity(count);
    let n = raw.len();
    let mut i: usize = 0;
    while i < count
        invariant
            i <= count,
            n == raw@.len(),
            start + 4 * count <= raw@.len(),
            words@.len() == i,
            forall|j: int| 0 <= j < i ==> words@[j] as nat == word_at(raw@, start + 4 * j, 4),
        decreases count - i,
    {
        words.push(word32(raw, start + 4 * i));
        i += 1;
    }
    words
}

/// Reads `count` consecutive 8-byte words, the first at byte `start`.
pub fn read_words64(raw: &[u8], start: usize, count: usize) -> (words: Vec<u64>)
    requires
        start + 8 * count <= raw@.len(),
    ensures
        words@.len() == count,
        forall|i: int| 0 <= i < count ==> words@[i] as nat == word_at(raw@, start + 8 * i, 8),
{
    let mut words: Vec<u64> = Vec::with_capacity(count);
    let n = raw.len();
    let mut i: usize = 0;
    while i < count
        invariant
            i <= count,
            n == raw@.len(),
            start + 8 * count <= raw@.len(),
            words@.len() == i,
            forall|j: int| 0 <= j < i ==> words@[j] as nat == word_at(raw@, start + 8 * j, 8),
        decreases count - i,
    {
        words.push(word64(raw, start + 8 * i));
        i += 1;
    }
    words
}

/// The tree-point and query counts of the header, or `None` when `raw` is
/// shorter than a header or, where `require_magic` holds, does not start
/// with `SBDS`.
pub fn parse_header(raw: &[u8], require_magic: bool) -> (counts: Option<(usize, usize)>)
    ensures
        counts is None <==> raw@.len() < HEADER_LEN || (require_magic && !has_magic(raw@)),
        counts matches Some((trees, queries)) ==> trees == header_tree_count(raw@) && queries
            == header_query_count(raw@),
{
    if raw.len() < HEADER_LEN {
        return None;
    }
    if require_magic && !(raw[0] == 0x53u8 && raw[1] == 0x42u8 && raw[2] == 0x44u8 && raw[3]
        == 0x53u8) {
        return None;
    }
    let trees = word64(raw, 13);
    let queries = word64(raw, 21);
    Some((trees as usize, queries as usize))
}

/// The tree-point and query counts of a dataset's header.
///
/// Fails with "invalid dataset header" when `raw` is shorter than a header or
/// does not start with `SBDS`.
pub fn counts(raw: &[u8]) -> (res: Result<(usize, usize), String>)
    ensures
        res is Err <==> raw@.len() < HEADER_LEN || !has_magic(raw@),
        res matches Err(e) ==> e@ == "invalid dataset header"@,
        res matches Ok((trees, queries)) ==> trees == header_tree_count(raw@) && queries
            == header_query_count(raw@),
{
    match parse_header(raw, true) {
        Some(c) => Ok(c),
        None => Err("invalid dataset header".to_owned()),
    }
}

/// Why a dataset body does not match its header.
#[derive(Clone, Copy, Debug, PartialEq, Eq, Structural)]
pub enum BodyError {
    /// The body's length is not a whole number of words.
    PartialWord,
    /// The body holds a number of words other than the header announces.
    CountMismatch,
}

/// Number of bytes in the body of `raw`.
pub open spec fn body_len(raw: Seq<u8>) -> int {
    raw.len() - HEADER_LEN
}

/// What splitting a body of `width`-byte words, announced to hold `trees`
/// tree points and `queries` query points of `dims` coordinates, gives:
/// the error, if any.
pub open spec fn body_error(raw: Seq<u8>, width: int, trees: int, queries: int, dims: int) -> Option<
    BodyError,
> {
    if body_len(raw) % width != 0 {
        Some(BodyError::PartialWord)
    } else if body_len(raw) / width != (trees + queries) * dims {
        Some(BodyError::CountMismatch)
    } else {
        None
    }
}

/// Whether `words` are the `width`-byte body words with indices `first ..
/// first + words.len()`.
pub open spec fn body_words<W>(raw: Seq<u8>, width: int, first: int, words: Seq<W>, value: spec_fn(W) -> nat) -> bool {
    forall|i: int| 0 <= i < words.len() ==> #[trigger] value(words[i]) == word_at(raw, HEADER_LEN + width * (first + i), width)
}

/// The arithmetic facts the body split needs about `trees * dims`.
proof fn lemma_split_sizes(trees: int, queries: int, dims: int)
    requires
        0 <= trees,
        0 <= queries,
        1 <= dims,
    ensures
        trees + queries <= (trees + queries) * dims,
        trees * dims <= (trees + queries) * dims,
        (trees + queries) * dims == trees * dims + queries * dims,
        0 <= queries * dims,
{
    assert(trees + queries <= (trees + queries) * dims) by (nonlinear_arith)
        requires
            0 <= trees,
            0 <= queries,
            1 <= dims,
    ;
    assert(trees * dims <= (trees + queries) * dims) by (nonlinear_arith)
        requires
            0 <= trees,
            0 <= queries,
            0 <= dims,
    ;
    assert((trees + queries) * dims == trees * dims + queries * dims) by (nonlinear_arith);
    assert(0 <= queries * dims) by (nonlinear_arith)
        requires
            0 <= queries,
            0 <= dims,
    ;
}

/// Splits a body of 4-byte words into the tree points' words and the query
/// points' words, each point `dims` consecutive words.
pub fn split_body32(raw: &[u8], trees: usize, queries: usize, dims: usize) -> (res: Result<
    (Vec<u32>, Vec<u32>),
    BodyError,
>)
    requires
        raw@.len() >= HEADER_LEN,
        dims >= 1,
        body_len(raw@) % 4 == 0 ==> (trees + queries) * dims <= usize::MAX,
    ensures
        match res {
            Err(e) => body_error(raw@, 4, trees as int, queries as int, dims as int) == Some(e),
            Ok((points, probes)) => {
                &&& body_error(raw@, 4, trees as int, queries as int, dims as int) is None
                &&& points@.len() == trees * dims
                &&& probes@.len() == queries * dims
                &&& body_words(raw@, 4, 0, points@, |w: u32| w as nat)
                &&& body_words(raw@, 4, trees * dims, probes@, |w: u32| w as nat)
            },
        },
{
    let len = raw.len() - HEADER_LEN;
    if len % 4 != 0 {
        return Err(BodyError::PartialWord);
    }
    proof {
        lemma_split_sizes(trees as int, queries as int, dims as int);
    }
    let total = (trees + queries) * dims;
    if len / 4 != total {
        return Err(BodyError::CountMismatch);
    }
    let tree_words = trees * dims;
    let points = read_words32(raw, HEADER_LEN, tree_words);
    let probes = read_words32(raw, HEADER_LEN + 4 * tree_words, total - tree_words);
    proof {
        assert forall|i: int| 0 <= i < probes@.len() implies #[trigger] (probes@[i] as nat)
            == word_at(raw@, HEADER_LEN + 4 * (tree_words + i), 4) by {
            assert(HEADER_LEN + 4 * tree_words + 4 * i == HEADER_LEN + 4 * (tree_words + i));
        }
    }
    Ok((points, probes))
}


/// Splits a body of 8-byte words into the tree points' words and the query
/// points' words, each point `dims` consecutive words.
pub fn split_body64(raw: &[u8], trees: usize, queries: usize, dims: usize) -> (res: Result<
    (Vec<u64>, Vec<u64>),
    BodyError,
>)
    requires
        raw@.len() >= HEADER_LEN,
        dims >= 1,
        body_len(raw@) % 8 == 0 ==> (trees + queries) * dims <= usize::MAX,
    ensures
        match res {
            Err(e) => body_error(raw@, 8, trees as int, queries as int, dims as int) == Some(e),
            Ok((points, probes)) => {
                &&& body_error(raw@, 8, trees as int, queries as int, dims as int) is None
                &&& points@.len() == trees * dims
                &&& probes@.len() == queries * dims
                &&& body_words(raw@, 8, 0, points@, |w: u64| w as nat)
                &&& body_words(raw@, 8, trees * dims, probes@, |w: u64| w as nat)
            },
        },
{
    let len = raw.len() - HEADER_LEN;
    if len % 8 != 0 {
        return Err(BodyError::PartialWord);
    }
    proof {
        lemma_split_sizes(trees as int, queries as int, dims as int);
    }
    let total = (trees + queries) * dims;
    if len / 8 != total {
        return Err(BodyError::CountMismatch);
    }
    let tree_words = trees * dims;
    let points = read_words64(raw, HEADER_LEN, tree_words);
    let probes = read_words64(raw, HEADER_LEN + 8 * tree_words, total - tree_words);
    proof {
        assert forall|i: int| 0 <= i < probes@.len() implies #[trigger] (probes@[i] as nat)
            == word_at(raw@, HEADER_LEN + 8 * (tree_words + i), 8) by {
            assert(HEADER_LEN + 8 * tree_words + 8 * i == HEADER_LEN + 8 * (tree_words + i));
        }
    }
    Ok((points, probes))
}


/// Why a dataset could not be decoded.
#[derive(Clone, Copy, Debug, PartialEq, Eq, Structural)]
pub enum DecodeFailure {
    /// The header is too short or, where it is checked, lacks the magic.
    Header,
    /// The body does not match the header.
    Body(BodyError),
}

/// What decoding `raw` as a dataset of `width`-byte words and `dims`
/// coordinates per point fails with, if anything.
pub open spec fn decode_failure(raw: Seq<u8>, width: int, dims: int, require_magic: bool) -> Option<
    DecodeFailure,
> {
    if raw.len() < HEADER_LEN || (require_magic && !has_magic(raw)) {
        Some(DecodeFailure::Header)
    } else {
        match body_error(
            raw,
            width,
            header_tree_count(raw) as int,
            header_query_count(raw) as int,
            dims,
        ) {
            Some(e) => Some(DecodeFailure::Body(e)),
            None => None,
        }
    }
}

/// Whether the counts of a well-formed header, multiplied out as the
/// decoders do, fit in a `usize` (decoding otherwise overflows).
pub open spec fn counts_fit(raw: Seq<u8>, width: int, dims: int, require_magic: bool) -> bool {
    raw.len() >= HEADER_LEN && (!require_magic || has_magic(raw)) && body_len(raw) % width == 0
        ==> (header_tree_count(raw) + header_query_count(raw)) * dims <= usize::MAX
}

/// Whether decoding `raw` stays within `usize` arithmetic (see
/// [`counts_fit`]); where it does not, the drivers' count arithmetic
/// overflows.
pub fn counts_in_range(raw: &[u8], width: usize, dims: usize, require_magic: bool) -> (fits: bool)
    requires
        width > 0,
    ensures
        fits == counts_fit(raw@, width as int, dims as int, require_magic),
{
    match parse_header(raw, require_magic) {
        None => true,
        Some((trees, queries)) => {
            if (raw.len() - HEADER_LEN) % width != 0 {
                true
            } else {
                match trees.checked_add(queries) {
                    None => {
                        proof {
                            assert((trees + queries) * dims >= trees + queries || dims == 0) by (nonlinear_arith)
                                requires trees + queries >= 0, dims >= 0;
                        }
                        assert(counts_fit(raw@, width as int, dims as int, require_magic) == (dims == 0));
                        dims == 0
                    },
                    Some(total) => {
                        let fits = total.checked_mul(dims).is_some();
                        assert(fits == counts_fit(raw@, width as int, dims as int, require_magic));
                        fits
                    },
                }
            }
        },
    }
}

/// The decoded words of a dataset: the tree points' words and the query
/// points' words, in body order, as many as the header announces.
pub open spec fn decoded<W>(raw: Seq<u8>, width: int, dims: int, points: Seq<W>, probes: Seq<W>, value: spec_fn(W) -> nat) -> bool {
    let trees = header_tree_count(raw) as int;
    let queries = header_query_count(raw) as int;
    &&& points.len() == trees * dims
    &&& probes.len() == queries * dims
    &&& body_words(raw, width, 0, points, value)
    &&& body_words(raw, width, trees * dims, probes, value)
}

/// The words a dataset decodes to are determined by its bytes: two
/// decodings of the same bytes into 8-byte words are equal. The kdtree
/// (`f64`) and kd-tree decoders both decode 3-D 8-byte words with the magic
/// checked, so on the same dataset they succeed together (both fail exactly
/// when `decode_failure(raw, 8, 3, true)` is some failure) and give the same
/// tree and query words.
pub proof fn lemma_decoded_unique(
    raw: Seq<u8>,
    width: int,
    dims: int,
    points: Seq<u64>,
    probes: Seq<u64>,
    other_points: Seq<u64>,
    other_probes: Seq<u64>,
)
    requires
        decoded(raw, width, dims, points, probes, |w: u64| w as nat),
        decoded(raw, width, dims, other_points, other_probes, |w: u64| w as nat),
    ensures
        points == other_points,
        probes == other_probes,
{
    let value = |w: u64| w as nat;
    let trees = header_tree_count(raw) as int;
    assert forall|i: int| 0 <= i < points.len() implies points[i] == other_points[i] by {
        assert(value(points[i]) == word_at(raw, HEADER_LEN + width * (0 + i), width));
        assert(value(other_points[i]) == word_at(raw, HEADER_LEN + width * (0 + i), width));
    }
    assert forall|i: int| 0 <= i < probes.len() implies probes[i] == other_probes[i] by {
        assert(value(probes[i]) == word_at(raw, HEADER_LEN + width * (trees * dims + i), width));
        assert(value(other_probes[i]) == word_at(raw, HEADER_LEN + width * (trees * dims + i), width));
    }
    assert(points =~= other_points);
    assert(probes =~= other_probes);
}

/// Decodes a dataset of 4-byte words with `dims` coordinates per point.
pub fn decode32(raw: &[u8], dims: usize, require_magic: bool) -> (res: Result<
    (Vec<u32>, Vec<u32>),
    DecodeFailure,
>)
    requires
        dims >= 1,
        counts_fit(raw@, 4, dims as int, require_magic),
    ensures
        match res {
            Err(f) => decode_failure(raw@, 4, dims as int, require_magic) == Some(f),
            Ok((points, probes)) => decode_failure(raw@, 4, dims as int, require_magic) is None
                && decoded(raw@, 4, dims as int, points@, probes@, |w: u32| w as nat),
        },
{
    match parse_header(raw, require_magic) {
        None => Err(DecodeFailure::Header),
        Some((trees, queries)) => match split_body32(raw, trees, queries, dims) {
            Err(e) => Err(DecodeFailure::Body(e)),
            Ok(words) => Ok(words),
        },
    }
}

/// Decodes a dataset of 8-byte words with `dims` coordinates per point.
pub fn decode64(raw: &[u8], dims: usize, require_magic: bool) -> (res: Result<
    (Vec<u64>, Vec<u64>),
    DecodeFailure,
>)
    requires
        dims >= 1,
        counts_fit(raw@, 8, dims as int, require_magic),
    ensures
        match res {
            Err(f) => decode_failure(raw@, 8, dims as int, require_magic) == Some(f),
            Ok((points, probes)) => decode_failure(raw@, 8, dims as int, require_magic) is None
                && decoded(raw@, 8, dims as int, points@, probes@, |w: u64| w as nat),
        },
{
    match parse_header(raw, require_magic) {
        None => Err(DecodeFailure::Header),
        Some((trees, queries)) => match split_body64(raw, trees, queries, dims) {
            Err(e) => Err(DecodeFailure::Body(e)),
            Ok(words) => Ok(words),
        },
    }
}


/// The kdtree driver's message for a failed decode of `f32` (or, where
/// `wide`, `f64`) data.
pub open spec fn kdtree_message(f: DecodeFailure, wide: bool) -> Seq<char> {
    match f {
        DecodeFailure::Header => "invalid dataset header"@,
        DecodeFailure::Body(BodyError::PartialWord) => if wide {
            "dataset body ends partway through an f64"@
        } else {
            "dataset body ends partway through an f32"@
        },
        DecodeFailure::Body(BodyError::CountMismatch) => "dataset body length disagrees with header"@,
    }
}

fn kdtree_error(f: DecodeFailure, wide: bool) -> (e: String)
    ensures
        e@ == kdtree_message(f, wide),
{
    match f {
        DecodeFailure::Header => "invalid dataset header".to_owned(),
        DecodeFailure::Body(BodyError::PartialWord) => if wide {
            "dataset body ends partway through an f64".to_owned()
        } else {
            "dataset body ends partway through an f32".to_owned()
        },
        DecodeFailure::Body(BodyError::CountMismatch) => "dataset body length disagrees with header".to_owned(),
    }
}

/// The kd-tree driver's message for a failed decode.
pub open spec fn kd_tree_message(f: DecodeFailure) -> Seq<char> {
    match f {
        DecodeFailure::Header => "invalid dataset header"@,
        DecodeFailure::Body(_) => "dataset body disagrees with header"@,
    }
}

fn kd_tree_error(f: DecodeFailure) -> (e: String)
    ensures
        e@ == kd_tree_message(f),
{
    match f {
        DecodeFailure::Header => "invalid dataset header".to_owned(),
        DecodeFailure::Body(_) => "dataset body disagrees with header".to_owned(),
    }
}

/// The terse message of the neighbourhood and spade drivers.
pub open spec fn terse_message(f: DecodeFailure) -> Seq<char> {
    match f {
        DecodeFailure::Header => "header"@,
        DecodeFailure::Body(_) => "body"@,
    }
}

fn terse_error(f: DecodeFailure) -> (e: String)
    ensures
        e@ == terse_message(f),
{
    match f {
        DecodeFailure::Header => "header".to_owned(),
        DecodeFailure::Body(_) => "body".to_owned(),
    }
}

/// The kdtree driver's decoding of a 3-D `f32` dataset: the coordinates'
/// bit patterns, tree points then query points.
pub fn decode_kdtree_f32(raw: &[u8]) -> (res: Result<(Vec<u32>, Vec<u32>), String>)
    requires
        counts_fit(raw@, 4, 3, true),
    ensures
        match res {
            Err(e) => decode_failure(raw@, 4, 3, true) matches Some(f) && e@ == kdtree_message(f, false),
            Ok((points, probes)) => decode_failure(raw@, 4, 3, true) is None
                && decoded(raw@, 4, 3, points@, probes@, |w: u32| w as nat),
        },
{
    match decode32(raw, 3, true) {
        Ok(words) => Ok(words),
        Err(f) => Err(kdtree_error(f, false)),
    }
}

/// The kdtree driver's decoding of a 3-D `f64` dataset: the coordinates'
/// bit patterns, tree points then query points.
pub fn decode_kdtree_f64(raw: &[u8]) -> (res: Result<(Vec<u64>, Vec<u64>), String>)
    requires
        counts_fit(raw@, 8, 3, true),
    ensures
        match res {
            Err(e) => decode_failure(raw@, 8, 3, true) matches Some(f) && e@ == kdtree_message(f, true),
            Ok((points, probes)) => decode_failure(raw@, 8, 3, true) is None
                && decoded(raw@, 8, 3, points@, probes@, |w: u64| w as nat),
        },
{
    match decode64(raw, 3, true) {
        Ok(words) => Ok(words),
        Err(f) => Err(kdtree_error(f, true)),
    }
}

/// The kd-tree driver's decoding of a 3-D `f64` dataset.
pub fn decode_kd_tree(raw: &[u8]) -> (res: Result<(Vec<u64>, Vec<u64>), String>)
    requires
        counts_fit(raw@, 8, 3, true),
    ensures
        match res {
            Err(e) => decode_failure(raw@, 8, 3, true) matches Some(f) && e@ == kd_tree_message(f),
            Ok((points, probes)) => decode_failure(raw@, 8, 3, true) is None
                && decoded(raw@, 8, 3, points@, probes@, |w: u64| w as nat),
        },
{
    match decode64(raw, 3, true) {
        Ok(words) => Ok(words),
        Err(f) => Err(kd_tree_error(f)),
    }
}

/// The neighbourhood driver's decoding of a 3-D `f32` dataset; it does not
/// check the magic bytes.
pub fn decode_neighbourhood(raw: &[u8]) -> (res: Result<(Vec<u32>, Vec<u32>), String>)
    requires
        counts_fit(raw@, 4, 3, false),
    ensures
        match res {
            Err(e) => decode_failure(raw@, 4, 3, false) matches Some(f) && e@ == terse_message(f),
            Ok((points, probes)) => decode_failure(raw@, 4, 3, false) is None
                && decoded(raw@, 4, 3, points@, probes@, |w: u32| w as nat),
        },
{
    match decode32(raw, 3, false) {
        Ok(words) => Ok(words),
        Err(f) => Err(terse_error(f)),
    }
}

/// The spade driver's decoding of a 2-D `f64` dataset.
pub fn decode_spade(raw: &[u8]) -> (res: Result<(Vec<u64>, Vec<u64>), String>)
    requires
        counts_fit(raw@, 8, 2, true),
    ensures
        match res {
            Err(e) => decode_failure(raw@, 8, 2, true) matches Some(f) && e@ == terse_message(f),
            Ok((points, probes)) => decode_failure(raw@, 8, 2, true) is None
                && decoded(raw@, 8, 2, points@, probes@, |w: u64| w as nat),
        },
{
    match decode64(raw, 2, true) {
        Ok(words) => Ok(words),
        Err(f) => Err(terse_error(f)),
    }
}


/// Whether the kiddo drivers' slices of `raw` stay in bounds: a header, then
/// the header's tree count of points and `queries` query points, each
/// `dims` words of `width` bytes.
pub open spec fn kiddo_fits(raw: Seq<u8>, width: int, dims: int, queries: int) -> bool {
    &&& raw.len() >= HEADER_LEN
    &&& HEADER_LEN + width * dims * (header_tree_count(raw) + queries) <= raw.len()
}

/// `a` points of `d` bytes fit in `n` bytes exactly when `a` is at most the
/// number of whole points in `n` bytes.
proof fn lemma_fits_whole_points(a: int, n: int, d: int)
    requires
        d > 0,
        n >= 0,
        a >= 0,
    ensures
        (a * d <= n) == (a <= n / d),
{
    vstd::arithmetic::div_mod::lemma_fundamental_div_mod(n, d);
    if a <= n / d {
        vstd::arithmetic::mul::lemma_mul_inequality(a, n / d, d);
        assert(a * d <= (n / d) * d);
        assert((n / d) * d == d * (n / d)) by (nonlinear_arith);
    } else {
        vstd::arithmetic::mul::lemma_mul_inequality(n / d + 1, a, d);
        assert((n / d + 1) * d == d * (n / d) + d) by (nonlinear_arith);
    }
}

/// The kiddo drivers' reading of a dataset of 4-byte words with `dims`
/// coordinates per point: the header's tree count of points from the start
/// of the body, then `queries` (the case's query count, not the header's)
/// query points. `None` where reading them would go past the end of `raw`.
pub fn decode_kiddo32(raw: &[u8], dims: usize, queries: usize) -> (res: Option<
    (Vec<u32>, Vec<u32>),
>)
    requires
        1 <= dims,
        4 * dims <= usize::MAX,
    ensures
        res is None <==> !kiddo_fits(raw@, 4, dims as int, queries as int),
        res matches Some((points, probes)) ==> {
            let trees = header_tree_count(raw@) as int;
            &&& points@.len() == trees * dims
            &&& probes@.len() == queries * dims
            &&& body_words(raw@, 4, 0, points@, |w: u32| w as nat)
            &&& body_words(raw@, 4, trees * dims, probes@, |w: u32| w as nat)
        },
{
    let trees = match parse_header(raw, false) {
        None => return None,
        Some((trees, _)) => trees,
    };
    let stride = 4 * dims;
    let room = raw.len() - HEADER_LEN;
    let whole = room / stride;
    proof {
        lemma_fits_whole_points(trees + queries, room as int, stride as int);
        assert(4 * dims * (trees + queries) == (trees + queries) * stride) by (nonlinear_arith)
            requires stride == 4 * dims;
    }
    if trees > whole || queries > whole - trees {
        return None;
    }
    proof {
        assert(trees * dims + queries * dims == (trees + queries) * dims) by (nonlinear_arith);
        assert((trees + queries) * stride == 4 * ((trees + queries) * dims)) by (nonlinear_arith)
            requires stride == 4 * dims;
        assert(0 <= queries * dims) by (nonlinear_arith);
        assert(0 <= trees * dims) by (nonlinear_arith);
    }
    let tree_words = trees * dims;
    let points = read_words32(raw, HEADER_LEN, tree_words);
    let probes = read_words32(raw, HEADER_LEN + 4 * tree_words, queries * dims);
    proof {
        assert forall|i: int| 0 <= i < probes@.len() implies #[trigger] (probes@[i] as nat)
            == word_at(raw@, HEADER_LEN + 4 * (tree_words + i), 4) by {
            assert(HEADER_LEN + 4 * tree_words + 4 * i == HEADER_LEN + 4 * (tree_words + i));
        }
    }
    Some((points, probes))
}

/// The kiddo drivers' reading of a dataset of 8-byte words with `dims`
/// coordinates per point: the header's tree count of points from the start
/// of the body, then `queries` (the case's query count, not the header's)
/// query points. `None` where reading them would go past the end of `raw`.
pub fn decode_kiddo64(raw: &[u8], dims: usize, queries: usize) -> (res: Option<
    (Vec<u64>, Vec<u64>),
>)
    requires
        1 <= dims,
        8 * dims <= usize::MAX,
    ensures
        res is None <==> !kiddo_fits(raw@, 8, dims as int, queries as int),
        res matches Some((points, probes)) ==> {
            let trees = header_tree_count(raw@) as int;
            &&& points@.len() == trees * dims
            &&& probes@.len() == queries * dims
            &&& body_words(raw@, 8, 0, points@, |w: u64| w as nat)
            &&& body_words(raw@, 8, trees * dims, probes@, |w: u64| w as nat)
        },
{
    let trees = match parse_header(raw, false) {
        None => return None,
        Some((trees, _)) => trees,
    };
    let stride = 8 * dims;
    let room = raw.len() - HEADER_LEN;
    let whole = room / stride;
    proof {
        lemma_fits_whole_points(trees + queries, room as int, stride as int);
        assert(8 * dims * (trees + queries) == (trees + queries) * stride) by (nonlinear_arith)
            requires stride == 8 * dims;
    }
    if trees > whole || queries > whole - trees {
        return None;
    }
    proof {
        assert(trees * dims + queries * dims == (trees + queries) * dims) by (nonlinear_arith);
        assert((trees + queries) * stride == 8 * ((trees + queries) * dims)) by (nonlinear_arith)
            requires stride == 8 * dims;
        assert(0 <= queries * dims) by (nonlinear_arith);
        assert(0 <= trees * dims) by (nonlinear_arith);
    }
    let tree_words = trees * dims;
    let points = read_words64(raw, HEADER_LEN, tree_words);
    let probes = read_words64(raw, HEADER_LEN + 8 * tree_words, queries * dims);
    proof {
        assert forall|i: int| 0 <= i < probes@.len() implies #[trigger] (probes@[i] as nat)
            == word_at(raw@, HEADER_LEN + 8 * (tree_words + i), 8) by {
            assert(HEADER_LEN + 8 * tree_words + 8 * i == HEADER_LEN + 8 * (tree_words + i));
        }
    }
    Some((points, probes))
}

} // verus!
