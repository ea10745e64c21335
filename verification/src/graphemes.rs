//! Grapheme-aware length and truncation: lengths are counted in
//! user-perceived characters (grapheme clusters), never in bytes or
//! code points, and a shortened label carries at most one grapheme of
//! the configured marker symbol.

use unicode_segmentation::UnicodeSegmentation;
use vstd::prelude::*;

verus! {

/// The grapheme clusters of a string: its segmentation into
/// user-perceived characters, in order.
pub uninterp spec fn graphemes_of(s: Seq<char>) -> Seq<Seq<char>>;

/// Relies on UnicodeSegmentation::graphemes (extended clusters): the
/// clusters depend on the characters alone, are non-empty, and
/// concatenate back to the input string.
#[verifier::external_body]
fn split_graphemes(text: &str) -> (r: Vec<String>)
    ensures
        r@.map_values(|g: String| g@) == graphemes_of(text@),
        r@.map_values(|g: String| g@).flatten() == text@,
        forall|i: int| 0 <= i < r@.len() ==> r@[i]@.len() >= 1,
{
    UnicodeSegmentation::graphemes(text, true).map(|g| g.to_string()).collect()
}

/// Counts the user-perceived characters of `text`.
pub fn graphemes_len(text: &str) -> (n: usize)
    ensures
        n == graphemes_of(text@).len(),
{
    let v = split_graphemes(text);
    proof {
        assert(v@.map_values(|g: String| g@).len() == v@.len());
    }
    v.len()
}

/// The first `n` grapheme clusters of `s` joined back together; the
/// whole of `s` when it has no more than `n` clusters.
pub open spec fn prefix_graphemes(s: Seq<char>, n: int) -> Seq<char> {
    let gs = graphemes_of(s);
    if n <= gs.len() {
        gs.take(n).flatten()
    } else {
        gs.flatten()
    }
}

/// Keeps the first `length` user-perceived characters of `text`,
/// or all of `text` when it has no more than `length` of them.
pub fn get_graphemes(text: &str, length: usize) -> (r: String)
    ensures
        r@ == prefix_graphemes(text@, length as int),
        graphemes_of(text@).len() <= length ==> r@ == text@,
{
    let v = split_graphemes(text);
    let ghost gs = graphemes_of(text@);
    let n: usize = if length < v.len() {
        length
    } else {
        v.len()
    };
    let mut r = String::new();
    let mut i: usize = 0;
    proof {
        assert(gs.take(0) =~= Seq::<Seq<char>>::empty());
        assert(Seq::<Seq<char>>::empty().flatten() =~= Seq::<char>::empty());
    }
    while i < n
        invariant
            i <= n,
            n <= v@.len(),
            v@.map_values(|g: String| g@) == gs,
            gs == graphemes_of(text@),
            r@ == gs.take(i as int).flatten(),
        decreases n - i,
    {
        proof {
            assert(v@.map_values(|g: String| g@)[i as int] == v@[i as int]@);
            assert(gs.take(i + 1) =~= gs.take(i as int).push(gs[i as int]));
            gs.take(i as int).lemma_flatten_push(gs[i as int]);
        }
        let g: &String = &v[i];
        r.append(g.as_str());
        i = i + 1;
    }
    proof {
        if length >= v.len() {
            assert(gs.take(n as int) =~= gs);
            assert(v@.map_values(|g: String| g@).flatten() == text@);
        }
    }
    r
}

/// The single grapheme of the marker symbol that a truncated label
/// carries: the symbol's first cluster, or nothing when the symbol is
/// empty.
pub open spec fn marker_grapheme(symbol: Seq<char>) -> Seq<char> {
    if graphemes_of(symbol).len() == 0 {
        Seq::empty()
    } else {
        graphemes_of(symbol)[0]
    }
}

/// The truncation of `label` to at most `limit` grapheme clusters:
/// `label` itself when it fits, else its first `limit` clusters
/// followed by one cluster of `symbol`.
pub open spec fn truncate_spec(label: Seq<char>, limit: int, symbol: Seq<char>) -> Seq<char> {
    if graphemes_of(label).len() <= limit {
        label
    } else {
        graphemes_of(label).take(limit).flatten() + marker_grapheme(symbol)
    }
}

/// Shortens `label` to at most `limit` user-perceived characters,
/// appending one user-perceived character of `symbol` exactly when
/// something was cut off.
pub fn truncate_graphemes(label: &str, limit: usize, symbol: &str) -> (r: String)
    ensures
        r@ == truncate_spec(label@, limit as int, symbol@),
        graphemes_of(label@).len() <= usize::MAX,
        graphemes_of(label@).len() <= limit ==> r@ == label@,
{
    let count: usize = graphemes_len(label);
    if count <= limit {
        label.to_owned()
    } else {
        let prefix = get_graphemes(label, limit);
        let marker = get_graphemes(symbol, 1);
        proof {
            let ms = graphemes_of(symbol@);
            if ms.len() == 0 {
                assert(ms.take(0) =~= ms);
            } else {
                assert(ms.take(1).len() == 1);
                ms.take(1).lemma_flatten_singleton();
                assert(ms.take(1)[0] == ms[0]);
            }
        }
        prefix.concat(marker.as_str())
    }
}

/// How a label is to be shortened: a maximum grapheme count, where a
/// non-positive value means "no limit", and the marker symbol whose
/// first grapheme is appended when shortening occurs.
pub struct TruncationPolicy {
    pub max_length: i64,
    pub symbol: String,
}

/// The grapheme limit a configured `max_length` stands for: any
/// non-positive value, and any value beyond what this machine can
/// count, means the largest representable limit.
pub open spec fn normalized_limit(max_length: i64) -> int {
    if max_length <= 0 {
        usize::MAX as int
    } else if max_length > usize::MAX {
        usize::MAX as int
    } else {
        max_length as int
    }
}

/// Validates a configured maximum length once, at the boundary: the
/// usable limit, and whether the configuration was invalid
/// (non-positive) and deserves a diagnostic.
pub fn normalize_max_length(max_length: i64) -> (r: (usize, bool))
    ensures
        r.0 as int == normalized_limit(max_length),
        r.1 == (max_length <= 0),
{
    if max_length <= 0 {
        (usize::MAX, true)
    } else if max_length as u64 > usize::MAX as u64 {
        (usize::MAX, false)
    } else {
        (max_length as usize, false)
    }
}

/// Applies a truncation policy to a label: a non-positive maximum
/// length is treated as unbounded and reported in the second result so
/// that the host can emit a diagnostic; otherwise the label keeps at
/// most `max_length` user-perceived characters, with one grapheme of
/// the policy's symbol appended exactly when shortening occurred.
pub fn truncate_label(label: &str, policy: &TruncationPolicy) -> (r: (String, bool))
    ensures
        r.0@ == truncate_spec(label@, normalized_limit(policy.max_length), policy.symbol@),
        r.1 == (policy.max_length <= 0),
        policy.max_length <= 0 ==> r.0@ == label@,
{
    let (limit, warned): (usize, bool) = normalize_max_length(policy.max_length);
    let out = truncate_graphemes(label, limit, policy.symbol.as_str());
    (out, warned)
}

/// Truncating twice under one policy is no different from truncating
/// once, whenever the once-truncated label fits the limit — in
/// particular always under an unbounded limit.
pub proof fn lemma_truncate_idempotent(label: Seq<char>, limit: int, symbol: Seq<char>)
    requires
        graphemes_of(label).len() <= limit || graphemes_of(
            truncate_spec(label, limit, symbol),
        ).len() <= limit,
    ensures
        truncate_spec(truncate_spec(label, limit, symbol), limit, symbol) == truncate_spec(
            label,
            limit,
            symbol,
        ),
{
}

} // verus!
