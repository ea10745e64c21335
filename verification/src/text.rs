//! Character-level text helpers: trimming surrounding whitespace and
//! taking the last newline-separated line of a string.

use vstd::prelude::*;

verus! {

/// Whether a character counts as whitespace for trimming; Unicode
/// defines the set through the `White_Space` property.
pub uninterp spec fn is_space(c: char) -> bool;

/// Relies on char::is_whitespace: true exactly for characters with the
/// Unicode `White_Space` property, a function of the character alone.
#[verifier::external_body]
fn exec_is_space(c: char) -> (r: bool)
    ensures
        r == is_space(c),
{
    c.is_whitespace()
}

/// `s` with every leading whitespace character removed.
pub open spec fn trim_start_spec(s: Seq<char>) -> Seq<char>
    decreases s.len(),
{
    if s.len() == 0 {
        s
    } else if is_space(s[0]) {
        trim_start_spec(s.drop_first())
    } else {
        s
    }
}

/// `s` with every trailing whitespace character removed.
pub open spec fn trim_end_spec(s: Seq<char>) -> Seq<char>
    decreases s.len(),
{
    if s.len() == 0 {
        s
    } else if is_space(s.last()) {
        trim_end_spec(s.drop_last())
    } else {
        s
    }
}

/// `s` with surrounding whitespace removed.
pub open spec fn trim_spec(s: Seq<char>) -> Seq<char> {
    trim_end_spec(trim_start_spec(s))
}

proof fn lemma_trim_start_skip(s: Seq<char>, i: int)
    requires
        0 <= i <= s.len(),
        forall|j: int| 0 <= j < i ==> is_space(s[j]),
    ensures
        trim_start_spec(s) == trim_start_spec(s.skip(i)),
    decreases i,
{
    if i > 0 {
        assert(s.drop_first() =~= s.skip(1));
        lemma_trim_start_skip(s.skip(1), i - 1);
        assert(s.skip(1).skip(i - 1) =~= s.skip(i));
    } else {
        assert(s.skip(0) =~= s);
    }
}

proof fn lemma_trim_end_take(s: Seq<char>, k: int)
    requires
        0 <= k <= s.len(),
        forall|j: int| k <= j < s.len() ==> is_space(s[j]),
    ensures
        trim_end_spec(s) == trim_end_spec(s.take(k)),
    decreases s.len() - k,
{
    if k < s.len() {
        assert(is_space(s.last()));
        assert(s.drop_last() =~= s.take(s.len() - 1));
        lemma_trim_end_take(s.take(s.len() - 1), k);
        assert(s.take(s.len() - 1).take(k) =~= s.take(k));
    } else {
        assert(s.take(k) =~= s);
    }
}

/// Removes the whitespace characters that surround `s`, keeping
/// everything between the first and the last non-whitespace character.
pub fn trim(s: &str) -> (r: String)
    ensures
        r@ == trim_spec(s@),
{
    let len: usize = s.unicode_len();
    let mut start: usize = 0;
    while start < len && exec_is_space(s.get_char(start))
        invariant
            len == s@.len(),
            start <= len,
            forall|j: int| 0 <= j < start ==> is_space(s@[j]),
        decreases len - start,
    {
        start = start + 1;
    }
    proof {
        lemma_trim_start_skip(s@, start as int);
    }
    if start == len {
        proof {
            assert(s@.skip(start as int) =~= Seq::<char>::empty());
        }
        return String::new();
    }
    // the first character of the remainder is not whitespace
    assert(s@.skip(start as int)[0] == s@[start as int]);
    assert(trim_start_spec(s@) == s@.skip(start as int));
    let mut end: usize = len;
    while exec_is_space(s.get_char(end - 1))
        invariant
            len == s@.len(),
            start < end <= len,
            !is_space(s@[start as int]),
            forall|j: int| end <= j < len ==> is_space(s@[j]),
        decreases end,
    {
        end = end - 1;
    }
    let r = s.substring_char(start, end);
    proof {
        let rest = s@.skip(start as int);
        lemma_trim_end_take(rest, end - start);
        assert(rest.take(end - start) =~= s@.subrange(start as int, end as int));
        let kept = s@.subrange(start as int, end as int);
        assert(kept.last() == s@[end - 1]);
        assert(!is_space(kept.last()));
        assert(trim_end_spec(kept) == kept);
    }
    r.to_owned()
}

/// The suffix of `s` after its last newline character; `s` itself when
/// no newline occurs in it.
pub open spec fn last_line_spec(s: Seq<char>) -> Seq<char>
    decreases s.len(),
{
    if s.len() == 0 {
        s
    } else if s.last() == '\n' {
        Seq::empty()
    } else {
        last_line_spec(s.drop_last()).push(s.last())
    }
}

proof fn lemma_last_line_no_newline(s: Seq<char>)
    requires
        forall|q: int| 0 <= q < s.len() ==> s[q] != '\n',
    ensures
        last_line_spec(s) == s,
    decreases s.len(),
{
    if s.len() > 0 {
        lemma_last_line_no_newline(s.drop_last());
        assert(s.drop_last().push(s.last()) =~= s);
    } else {
        assert(last_line_spec(s) =~= s);
    }
}

proof fn lemma_last_line_after_newline(s: Seq<char>, p: int)
    requires
        0 <= p < s.len(),
        s[p] == '\n',
        forall|q: int| p < q < s.len() ==> s[q] != '\n',
    ensures
        last_line_spec(s) == s.subrange(p + 1, s.len() as int),
    decreases s.len(),
{
    if p == s.len() - 1 {
        assert(last_line_spec(s) =~= s.subrange(p + 1, s.len() as int));
    } else {
        assert(s.last() != '\n');
        lemma_last_line_after_newline(s.drop_last(), p);
        assert(s.drop_last().subrange(p + 1, s.len() - 1).push(s.last()) =~= s.subrange(
            p + 1,
            s.len() as int,
        ));
    }
}

/// Returns the text that follows the last newline of `s`, or `s`
/// itself when `s` holds no newline.
pub fn last_line(s: &str) -> (r: String)
    ensures
        r@ == last_line_spec(s@),
{
    let len: usize = s.unicode_len();
    let mut j: usize = len;
    while j > 0
        invariant
            len == s@.len(),
            j <= len,
            forall|q: int| j <= q < len ==> s@[q] != '\n',
        decreases j,
    {
        if s.get_char(j - 1) == '\n' {
            let r = s.substring_char(j, len);
            proof {
                lemma_last_line_after_newline(s@, j - 1);
            }
            return r.to_owned();
        }
        j = j - 1;
    }
    proof {
        lemma_last_line_no_newline(s@);
    }
    s.to_owned()
}

} // verus!
