//! Character-sequence utilities shared by the diff tracker and the
//! control protocol: longest common prefix, leftmost substring match,
//! and decimal formatting, all counted in Unicode scalars.

use vstd::prelude::*;
use vstd::string::StrSliceExecFns;

verus! {

/// First index at or after `i` where `a` and `b` stop agreeing
/// (or the end of the shorter sequence).
pub open spec fn divergence_from(a: Seq<char>, b: Seq<char>, i: int) -> int
    decreases a.len() - i,
{
    if 0 <= i < a.len() && i < b.len() && a[i] == b[i] {
        divergence_from(a, b, i + 1)
    } else {
        i
    }
}

/// Length of the longest common prefix of `a` and `b`.
pub open spec fn common_prefix_len(a: Seq<char>, b: Seq<char>) -> int {
    divergence_from(a, b, 0)
}

pub proof fn lemma_divergence_from(a: Seq<char>, b: Seq<char>, i: int)
    requires
        0 <= i <= a.len(),
        i <= b.len(),
    ensures
        i <= divergence_from(a, b, i) <= a.len(),
        divergence_from(a, b, i) <= b.len(),
        forall|j: int| i <= j < divergence_from(a, b, i) ==> a[j] == b[j],
        divergence_from(a, b, i) < a.len() && divergence_from(a, b, i) < b.len()
            ==> a[divergence_from(a, b, i)] != b[divergence_from(a, b, i)],
    decreases a.len() - i,
{
    if 0 <= i < a.len() && i < b.len() && a[i] == b[i] {
        lemma_divergence_from(a, b, i + 1);
    }
}

/// The common-prefix length is pinned down by agreement below it and
/// disagreement (or an end) at it.
pub proof fn lemma_common_prefix_unique(a: Seq<char>, b: Seq<char>, k: int)
    requires
        0 <= k <= a.len(),
        k <= b.len(),
        forall|j: int| 0 <= j < k ==> a[j] == b[j],
        k == a.len() || k == b.len() || a[k] != b[k],
    ensures
        common_prefix_len(a, b) == k,
{
    lemma_divergence_unique(a, b, 0, k);
}

proof fn lemma_divergence_unique(a: Seq<char>, b: Seq<char>, i: int, k: int)
    requires
        0 <= i <= k <= a.len(),
        k <= b.len(),
        forall|j: int| i <= j < k ==> a[j] == b[j],
        k == a.len() || k == b.len() || a[k] != b[k],
    ensures
        divergence_from(a, b, i) == k,
    decreases a.len() - i,
{
    if i < k {
        lemma_divergence_unique(a, b, i + 1, k);
    }
}

/// Longest common prefix of two strings, in Unicode scalars.
pub fn common_prefix(a: &str, b: &str) -> (r: usize)
    ensures
        r == common_prefix_len(a@, b@),
{
    let la = a.unicode_len();
    let lb = b.unicode_len();
    let mut i: usize = 0;
    loop
        invariant
            0 <= i <= la,
            i <= lb,
            la == a@.len(),
            lb == b@.len(),
            forall|j: int| 0 <= j < i ==> a@[j] == b@[j],
        ensures
            i <= la,
            i <= lb,
            forall|j: int| 0 <= j < i ==> a@[j] == b@[j],
            i == la || i == lb || a@[i as int] != b@[i as int],
        decreases la - i,
    {
        if i >= la || i >= lb {
            break;
        }
        if a.get_char(i) != b.get_char(i) {
            break;
        }
        i = i + 1;
    }
    proof {
        lemma_common_prefix_unique(a@, b@, i as int);
    }
    i
}

/// `a` is a prefix of `b`, decided in Unicode scalars.
pub fn check_prefix(a: &str, b: &str) -> (r: bool)
    ensures
        r == a@.is_prefix_of(b@),
{
    let la = a.unicode_len();
    let lb = b.unicode_len();
    if la > lb {
        proof {
            assert(!a@.is_prefix_of(b@));
        }
        return false;
    }
    let c = common_prefix(a, b);
    proof {
        lemma_divergence_from(a@, b@, 0);
        if c == la {
            assert(a@ =~= b@.subrange(0, a@.len() as int));
        } else {
            assert(a@[c as int] != b@[c as int]);
            if a@.is_prefix_of(b@) {
                assert(a@[c as int] == b@.subrange(0, a@.len() as int)[c as int]);
            }
        }
    }
    c == la
}

/// `key` occurs in `hay` starting at scalar offset `p`.
pub open spec fn match_at(hay: Seq<char>, key: Seq<char>, p: int) -> bool {
    0 <= p && p + key.len() <= hay.len() && hay.subrange(p, p + key.len()) == key
}

/// Leftmost offset at or after `i` where a non-empty `key` occurs in
/// `hay`, or -1.
pub open spec fn first_match_from(hay: Seq<char>, key: Seq<char>, i: int) -> int
    decreases hay.len() - i,
{
    if i < 0 || key.len() == 0 || i + key.len() > hay.len() {
        -1
    } else if hay.subrange(i, i + key.len()) == key {
        i
    } else {
        first_match_from(hay, key, i + 1)
    }
}

/// Leftmost offset where `key` occurs in `hay`, or -1 if it does not occur.
pub open spec fn first_match(hay: Seq<char>, key: Seq<char>) -> int {
    first_match_from(hay, key, 0)
}

pub proof fn lemma_first_match_from(hay: Seq<char>, key: Seq<char>, i: int)
    requires
        0 <= i,
        key.len() >= 1,
    ensures
        first_match_from(hay, key, i) == -1 ==> forall|p: int| p >= i ==> !match_at(hay, key, p),
        first_match_from(hay, key, i) >= 0 ==> i <= first_match_from(hay, key, i)
            && match_at(hay, key, first_match_from(hay, key, i))
            && forall|p: int| i <= p < first_match_from(hay, key, i) ==> !match_at(hay, key, p),
        first_match_from(hay, key, i) >= 0 ==> first_match_from(hay, key, i) + key.len()
            <= hay.len(),
    decreases hay.len() - i,
{
    if i + key.len() > hay.len() {
        assert(forall|p: int| p >= i ==> !match_at(hay, key, p));
    } else if hay.subrange(i, i + key.len()) == key {
    } else {
        lemma_first_match_from(hay, key, i + 1);
    }
}

/// Whether `key` = the first `key_len` scalars of `needle` occurs in `hay`
/// at the given offset; used to relate the search loop to the spec.
pub proof fn lemma_first_match_step(hay: Seq<char>, key: Seq<char>, i: int)
    requires
        0 <= i,
        i + key.len() <= hay.len(),
        hay.subrange(i, i + key.len()) != key,
    ensures
        first_match_from(hay, key, i) == first_match_from(hay, key, i + 1),
{
}

/// Leftmost occurrence in `hay` of the prefix of `needle` of length
/// `key_len`, as a scalar offset; `None` when it does not occur.
pub fn find_key(hay: &str, needle: &str, key_len: usize) -> (r: Option<usize>)
    requires
        key_len >= 1,
        key_len <= needle@.len(),
    ensures
        match r {
            Some(p) => first_match(hay@, needle@.subrange(0, key_len as int)) == p,
            None => first_match(hay@, needle@.subrange(0, key_len as int)) == -1,
        },
{
    let ghost key = needle@.subrange(0, key_len as int);
    let hay_len = hay.unicode_len();
    if key_len > hay_len {
        proof {
            lemma_first_match_from(hay@, key, 0);
        }
        return None;
    }
    let last_start = hay_len - key_len;
    let mut p: usize = 0;
    loop
        invariant_except_break
            0 <= p <= last_start + 1,
        invariant
            key_len >= 1,
            key_len <= needle@.len(),
            key_len <= hay_len,
            hay_len == hay@.len(),
            last_start == hay_len - key_len,
            key == needle@.subrange(0, key_len as int),
            first_match(hay@, key) == first_match_from(hay@, key, p as int),
        ensures
            p <= last_start,
            match_at(hay@, key, p as int),
        decreases last_start + 1 - p,
    {
        if p > last_start {
            proof {
                assert(first_match_from(hay@, key, p as int) == -1);
            }
            return None;
        }
        // compare key chars against hay[p..p+key_len]
        let mut j: usize = 0;
        let mut same = true;
        while j < key_len
            invariant
                0 <= j <= key_len,
                p + key_len <= hay_len,
                hay_len == hay@.len(),
                key_len <= needle@.len(),
                key == needle@.subrange(0, key_len as int),
                same ==> forall|q: int| 0 <= q < j ==> hay@[p + q] == key[q],
                !same ==> hay@.subrange(p as int, p + key_len) != key,
            decreases key_len - j,
        {
            if same {
                let hc = hay.get_char(p + j);
                let nc = needle.get_char(j);
                if hc != nc {
                    proof {
                        assert(hay@.subrange(p as int, p + key_len)[j as int] != key[j as int]);
                    }
                    same = false;
                }
            }
            j = j + 1;
        }
        if same {
            proof {
                assert(hay@.subrange(p as int, p + key_len) =~= key);
            }
            break;
        }
        proof {
            lemma_first_match_step(hay@, key, p as int);
        }
        p = p + 1;
    }
    Some(p)
}

/// Decimal digit characters.
pub open spec fn digit_char(d: int) -> char {
    if d == 0 {
        '0'
    } else if d == 1 {
        '1'
    } else if d == 2 {
        '2'
    } else if d == 3 {
        '3'
    } else if d == 4 {
        '4'
    } else if d == 5 {
        '5'
    } else if d == 6 {
        '6'
    } else if d == 7 {
        '7'
    } else if d == 8 {
        '8'
    } else {
        '9'
    }
}

/// The usual decimal rendering of a non-negative integer, no leading zeros.
pub open spec fn dec_str(n: int) -> Seq<char>
    decreases n,
{
    if n < 10 {
        seq![digit_char(n)]
    } else {
        dec_str(n / 10).push(digit_char(n % 10))
    }
}

/// Relies on String::push (std): appends the given character to the end
/// of the string.
pub assume_specification[ String::push ](s: &mut String, ch: char)
    ensures
        final(s)@ == old(s)@.push(ch),
;

fn digit_to_char(d: usize) -> (c: char)
    requires
        d < 10,
    ensures
        c == digit_char(d as int),
{
    if d == 0 {
        '0'
    } else if d == 1 {
        '1'
    } else if d == 2 {
        '2'
    } else if d == 3 {
        '3'
    } else if d == 4 {
        '4'
    } else if d == 5 {
        '5'
    } else if d == 6 {
        '6'
    } else if d == 7 {
        '7'
    } else if d == 8 {
        '8'
    } else {
        '9'
    }
}

/// Decimal rendering of `n`.
pub fn format_usize(n: usize) -> (s: String)
    ensures
        s@ == dec_str(n as int),
    decreases n,
{
    if n < 10 {
        let mut s = String::new();
        s.push(digit_to_char(n));
        proof {
            assert(s@ =~= dec_str(n as int));
        }
        s
    } else {
        let mut s = format_usize(n / 10);
        s.push(digit_to_char(n % 10));
        s
    }
}

} // verus!
