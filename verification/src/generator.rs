//! The command line of the shared dataset generator: the flags every driver
//! passes, with the counts and seed written in decimal.
use vstd::prelude::*;
use vstd::string::StringExecFns;

verus! {

/// The decimal digit character for `d < 10`.
pub open spec fn digit_char(d: nat) -> char {
    (48 + d) as char
}

/// `n` written in decimal, without leading zeros.
pub open spec fn decimal(n: nat) -> Seq<char>
    decreases n,
{
    if n < 10 {
        seq![digit_char(n)]
    } else {
        decimal(n / 10).push(digit_char(n % 10))
    }
}

/// `n` written in decimal, with a leading `-` when negative.
pub open spec fn signed_decimal(n: int) -> Seq<char> {
    if n < 0 {
        seq!['-'] + decimal((-n) as nat)
    } else {
        decimal(n as nat)
    }
}

fn digit_text(d: u64) -> (s: &'static str)
    requires
        d < 10,
    ensures
        s@ == seq![digit_char(d as nat)],
{
    match d {
        0 => {
            proof {
                reveal_strlit("0");
            }
            "0"
        },
        1 => {
            proof {
                reveal_strlit("1");
            }
            "1"
        },
        2 => {
            proof {
                reveal_strlit("2");
            }
            "2"
        },
        3 => {
            proof {
                reveal_strlit("3");
            }
            "3"
        },
        4 => {
            proof {
                reveal_strlit("4");
            }
            "4"
        },
        5 => {
            proof {
                reveal_strlit("5");
            }
            "5"
        },
        6 => {
            proof {
                reveal_strlit("6");
            }
            "6"
        },
        7 => {
            proof {
                reveal_strlit("7");
            }
            "7"
        },
        8 => {
            proof {
                reveal_strlit("8");
            }
            "8"
        },
        _ => {
            proof {
                reveal_strlit("9");
            }
            "9"
        },
    }
}

/// `n` in decimal, as `u64`'s `to_string` writes it.
pub fn decimal_u64(n: u64) -> (s: String)
    ensures
        s@ == decimal(n as nat),
{
    // The digits, most significant first, of what has been peeled off `n`.
    let mut digits: Vec<u64> = Vec::new();
    let mut m = n;
    loop
        invariant_except_break
            decimal(n as nat) == decimal(m as nat) + digits@.map_values(|d: u64| digit_char(d as nat)),
        invariant
            forall|i: int| 0 <= i < digits@.len() ==> #[trigger] digits@[i] < 10,
        ensures
            digits@.map_values(|d: u64| digit_char(d as nat)) =~= decimal(n as nat),
        decreases m,
    {
        if m < 10 {
            let ghost old_digits = digits@;
            digits.insert(0, m);
            assert(digits@.map_values(|d: u64| digit_char(d as nat)) =~= seq![digit_char(m as nat)] + old_digits.map_values(|d: u64| digit_char(d as nat)));
            break;
        }
        let ghost old_digits = digits@;
        digits.insert(0, m % 10);
        assert(digits@.map_values(|d: u64| digit_char(d as nat)) =~= seq![digit_char((m % 10) as nat)] + old_digits.map_values(|d: u64| digit_char(d as nat)));
        assert(decimal(m as nat) == decimal((m / 10) as nat).push(digit_char((m % 10) as nat)));
        assert(decimal(m as nat) + old_digits.map_values(|d: u64| digit_char(d as nat)) =~= decimal((m / 10) as nat) + digits@.map_values(|d: u64| digit_char(d as nat)));
        m = m / 10;
    }
    let mut s = String::new();
    let mut i: usize = 0;
    while i < digits.len()
        invariant
            i <= digits@.len(),
            forall|j: int| 0 <= j < digits@.len() ==> #[trigger] digits@[j] < 10,
            s@ =~= digits@.subrange(0, i as int).map_values(|d: u64| digit_char(d as nat)),
        decreases digits@.len() - i,
    {
        s.append(digit_text(digits[i]));
        assert(digits@.subrange(0, i + 1).map_values(|d: u64| digit_char(d as nat)) =~= digits@.subrange(0, i as int).map_values(|d: u64| digit_char(d as nat)).push(digit_char(digits@[i as int] as nat)));
        i += 1;
    }
    assert(digits@.subrange(0, i as int) =~= digits@);
    s
}

/// `n` in decimal, as `i64`'s `to_string` writes it.
pub fn decimal_i64(n: i64) -> (s: String)
    ensures
        s@ == signed_decimal(n as int),
{
    if n < 0 {
        let magnitude: u64 = ((-(n + 1)) as u64) + 1;
        let mut s = "-".to_owned();
        proof {
            reveal_strlit("-");
        }
        let digits = decimal_u64(magnitude);
        s.append(digits.as_str());
        s
    } else {
        decimal_u64(n as u64)
    }
}

/// The arguments the shared dataset generator is run with, in order.
pub open spec fn generator_args_spec(
    kind: Seq<char>,
    dims: Seq<char>,
    dtype: Seq<char>,
    tree_count: Seq<char>,
    query_count: Seq<char>,
    seed: Seq<char>,
) -> Seq<Seq<char>> {
    seq![
        "--kind"@,
        kind,
        "--dims"@,
        dims,
        "--dtype"@,
        dtype,
        "--tree-count"@,
        tree_count,
        "--query-count"@,
        query_count,
        "--seed"@,
        seed,
    ]
}

/// The dataset generator's command line: the dataset kind, the point
/// dimensionality, the coordinate type, the tree and query point counts and
/// the random seed, each after its flag.
pub fn generator_args(
    kind: &String,
    dims: &String,
    dtype: &String,
    tree_count: &String,
    query_count: &String,
    seed: &String,
) -> (args: Vec<String>)
    ensures
        args@.map_values(|a: String| a@) == generator_args_spec(kind@, dims@, dtype@, tree_count@, query_count@, seed@),
{
    let args = vec![
        "--kind".to_owned(),
        kind.clone(),
        "--dims".to_owned(),
        dims.clone(),
        "--dtype".to_owned(),
        dtype.clone(),
        "--tree-count".to_owned(),
        tree_count.clone(),
        "--query-count".to_owned(),
        query_count.clone(),
        "--seed".to_owned(),
        seed.clone(),
    ];
    assert(args@.map_values(|a: String| a@) =~= generator_args_spec(kind@, dims@, dtype@, tree_count@, query_count@, seed@));
    args
}


/// How a driver words a missing count tag: in full (kdtree, kd-tree) or by
/// the tag's name alone (neighbourhood, spade).
#[derive(Clone, Copy, Debug, PartialEq, Eq, Structural)]
pub enum Wording {
    Full,
    Terse,
}

/// The message for a missing `tree_size` tag.
pub open spec fn missing_tree_size(wording: Wording) -> Seq<char> {
    match wording {
        Wording::Full => "tree_size is missing"@,
        Wording::Terse => "tree_size"@,
    }
}

/// The message for a missing `query_count` tag.
pub open spec fn missing_query_count(wording: Wording) -> Seq<char> {
    match wording {
        Wording::Full => "query_count is missing"@,
        Wording::Terse => "query_count"@,
    }
}

/// The tree and query point counts a case asks the generator for, read from
/// its `tree_size` and `query_count` tags, the first missing one refused.
pub fn case_counts(tree_size: Option<i64>, query_count: Option<i64>, wording: Wording) -> (res: Result<(i64, i64), String>)
    ensures
        match res {
            Ok((trees, queries)) => tree_size == Some(trees) && query_count == Some(queries),
            Err(e) => if tree_size is None {
                e@ == missing_tree_size(wording)
            } else {
                query_count is None && e@ == missing_query_count(wording)
            },
        },
{
    let trees = match tree_size {
        Some(n) => n,
        None => return Err(match wording {
            Wording::Full => "tree_size is missing".to_owned(),
            Wording::Terse => "tree_size".to_owned(),
        }),
    };
    let queries = match query_count {
        Some(n) => n,
        None => return Err(match wording {
            Wording::Full => "query_count is missing".to_owned(),
            Wording::Terse => "query_count".to_owned(),
        }),
    };
    Ok((trees, queries))
}

/// The result count of a kdtree or kd-tree case: its `k` tag, which must be
/// present, as a `usize`.
pub fn required_k(k: Option<i64>) -> (res: Result<usize, String>)
    ensures
        match res {
            Ok(n) => k matches Some(v) && n == v as usize,
            Err(e) => k is None && e@ == "k is missing"@,
        },
{
    match k {
        Some(v) => Ok(v as usize),
        None => Err("k is missing".to_owned()),
    }
}

} // verus!
