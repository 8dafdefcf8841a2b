//! Text helpers: whitespace, trimming, equality and ordering of strings.

use vstd::prelude::*;

verus! {

/// The characters of Unicode's `White_Space` property, which `char::is_whitespace`
/// and `str::trim` go by.
pub open spec fn is_white_space(c: char) -> bool {
    let u = c as u32;
    (0x9 <= u && u <= 0xd) || u == 0x20 || u == 0x85 || u == 0xa0 || u == 0x1680 || (0x2000
        <= u && u <= 0x200a) || u == 0x2028 || u == 0x2029 || u == 0x202f || u == 0x205f || u
        == 0x3000
}

/// Every character of `s` is whitespace (the empty text included).
pub open spec fn is_blank(s: Seq<char>) -> bool {
    forall|i: int| 0 <= i < s.len() ==> is_white_space(#[trigger] s[i])
}

/// `s` without its leading whitespace.
pub open spec fn trim_start(s: Seq<char>) -> Seq<char>
    decreases s.len(),
{
    if s.len() > 0 && is_white_space(s[0]) {
        trim_start(s.drop_first())
    } else {
        s
    }
}

/// `s` without its trailing whitespace.
pub open spec fn trim_end(s: Seq<char>) -> Seq<char>
    decreases s.len(),
{
    if s.len() > 0 && is_white_space(s.last()) {
        trim_end(s.drop_last())
    } else {
        s
    }
}

/// `s` without leading and trailing whitespace.
pub open spec fn trimmed(s: Seq<char>) -> Seq<char> {
    trim_end(trim_start(s))
}

/// A text made of whitespace alone trims to nothing.
pub proof fn lemma_blank_trims_to_empty(s: Seq<char>)
    requires
        is_blank(s),
    ensures
        trimmed(s).len() == 0,
    decreases s.len(),
{
    if s.len() > 0 {
        assert(is_white_space(s[0]));
        let t = s.drop_first();
        assert forall|i: int| 0 <= i < t.len() implies is_white_space(#[trigger] t[i]) by {
            assert(t[i] == s[i + 1]);
        }
        lemma_blank_trims_to_empty(t);
    }
}

/// Relies on `str::trim`: the text with leading and trailing `White_Space`
/// characters removed.
#[verifier::external_body]
pub(crate) fn trim(s: &str) -> (r: String)
    ensures
        r@ == trimmed(s@),
{
    s.trim().to_string()
}

/// Lexicographic order of texts by code point: `a` sorts strictly before `b`.
/// On UTF-8 this is the order of the bytes, which is how a text column sorts.
pub open spec fn text_lt(a: Seq<char>, b: Seq<char>) -> bool {
    exists|k: int|
        0 <= k <= a.len() && k <= b.len() && a.subrange(0, k) == b.subrange(0, k) && (
        (k == a.len() && k < b.len()) || (k < a.len() && k < b.len() && a[k] < b[k]))
}

/// No text sorts strictly before itself.
pub proof fn lemma_text_lt_irreflexive(a: Seq<char>)
    ensures
        !text_lt(a, a),
{
}

/// Two texts never sort each before the other.
pub proof fn lemma_text_lt_asymmetric(a: Seq<char>, b: Seq<char>)
    ensures
        !(text_lt(a, b) && text_lt(b, a)),
{
    if text_lt(a, b) && text_lt(b, a) {
        let k1 = choose|k: int|
            0 <= k <= a.len() && k <= b.len() && a.subrange(0, k) == b.subrange(0, k) && (
            (k == a.len() && k < b.len()) || (k < a.len() && k < b.len() && a[k] < b[k]));
        let k2 = choose|k: int|
            0 <= k <= b.len() && k <= a.len() && b.subrange(0, k) == a.subrange(0, k) && (
            (k == b.len() && k < a.len()) || (k < b.len() && k < a.len() && b[k] < a[k]));
        if k1 < k2 {
            assert(a.subrange(0, k2)[k1] == b.subrange(0, k2)[k1]);
        } else if k2 < k1 {
            assert(a.subrange(0, k1)[k2] == b.subrange(0, k1)[k2]);
        }
    }
}

/// The order of texts is transitive.
pub proof fn lemma_text_lt_transitive(a: Seq<char>, b: Seq<char>, c: Seq<char>)
    requires
        text_lt(a, b),
        text_lt(b, c),
    ensures
        text_lt(a, c),
{
    let k1 = choose|k: int|
        0 <= k <= a.len() && k <= b.len() && a.subrange(0, k) == b.subrange(0, k) && (
        (k == a.len() && k < b.len()) || (k < a.len() && k < b.len() && a[k] < b[k]));
    let k2 = choose|k: int|
        0 <= k <= b.len() && k <= c.len() && b.subrange(0, k) == c.subrange(0, k) && (
        (k == b.len() && k < c.len()) || (k < b.len() && k < c.len() && b[k] < c[k]));
    let m = if k1 < k2 { k1 } else { k2 };
    assert forall|i: int| 0 <= i < m implies a[i] == c[i] by {
        assert(a.subrange(0, k1)[i] == b.subrange(0, k1)[i]);
        assert(b.subrange(0, k2)[i] == c.subrange(0, k2)[i]);
    }
    assert(a.subrange(0, m) =~= c.subrange(0, m));
    if k1 < k2 {
        assert(b.subrange(0, k2)[k1] == c.subrange(0, k2)[k1]);
    } else if k2 < k1 {
        assert(a.subrange(0, k1)[k2] == b.subrange(0, k1)[k2]);
    }
}

/// Scans past a common prefix of length `i` to where the texts first differ.
proof fn lemma_text_lt_total_from(a: Seq<char>, b: Seq<char>, i: int)
    requires
        a != b,
        0 <= i <= a.len(),
        i <= b.len(),
        a.subrange(0, i) == b.subrange(0, i),
    ensures
        text_lt(a, b) || text_lt(b, a),
    decreases a.len() - i,
{
    if i == a.len() && i == b.len() {
        assert(a =~= a.subrange(0, i));
        assert(b =~= b.subrange(0, i));
    } else if i == a.len() {
        assert(text_lt(a, b));
    } else if i == b.len() {
        assert(b.subrange(0, i) == a.subrange(0, i));
        assert(text_lt(b, a));
    } else if a[i] != b[i] {
        if a[i] < b[i] {
            assert(text_lt(a, b));
        } else {
            assert(b.subrange(0, i) == a.subrange(0, i));
            assert(b[i] < a[i]);
            assert(text_lt(b, a));
        }
    } else {
        assert(a.subrange(0, i + 1) =~= a.subrange(0, i).push(a[i]));
        assert(b.subrange(0, i + 1) =~= b.subrange(0, i).push(b[i]));
        lemma_text_lt_total_from(a, b, i + 1);
    }
}

/// Of two different texts, one sorts before the other.
pub proof fn lemma_text_lt_total(a: Seq<char>, b: Seq<char>)
    requires
        a != b,
    ensures
        text_lt(a, b) || text_lt(b, a),
{
    assert(a.subrange(0, 0) =~= b.subrange(0, 0));
    lemma_text_lt_total_from(a, b, 0);
}

/// Whether the two texts hold the same characters.
pub fn same_text(a: &str, b: &str) -> (r: bool)
    ensures
        r == (a@ == b@),
{
    let la = a.unicode_len();
    let lb = b.unicode_len();
    if la != lb {
        return false;
    }
    let mut i: usize = 0;
    while i < la
        invariant
            la == a@.len(),
            lb == b@.len(),
            la == lb,
            i <= la,
            forall|j: int| 0 <= j < i ==> a@[j] == b@[j],
        decreases la - i,
    {
        if a.get_char(i) != b.get_char(i) {
            return false;
        }
        i = i + 1;
    }
    assert(a@ =~= b@);
    true
}

/// Whether `a` sorts strictly before `b`.
pub fn text_before(a: &str, b: &str) -> (r: bool)
    ensures
        r == text_lt(a@, b@),
{
    let la = a.unicode_len();
    let lb = b.unicode_len();
    let mut i: usize = 0;
    while i < la && i < lb
        invariant
            la == a@.len(),
            lb == b@.len(),
            i <= la,
            i <= lb,
            a@.subrange(0, i as int) == b@.subrange(0, i as int),
        decreases la - i,
    {
        let ca = a.get_char(i);
        let cb = b.get_char(i);
        if ca != cb {
            if ca < cb {
                assert(text_lt(a@, b@)) by {
                    assert(a@.subrange(0, i as int) == b@.subrange(0, i as int));
                }
                return true;
            } else {
                proof {
                    assert(text_lt(b@, a@));
                    lemma_text_lt_asymmetric(a@, b@);
                }
                return false;
            }
        }
        assert(a@.subrange(0, i + 1) =~= b@.subrange(0, i + 1)) by {
            assert(a@.subrange(0, i + 1) =~= a@.subrange(0, i as int).push(ca));
            assert(b@.subrange(0, i + 1) =~= b@.subrange(0, i as int).push(cb));
        }
        i = i + 1;
    }
    if i == la && i < lb {
        assert(text_lt(a@, b@));
        true
    } else {
        proof {
            if i == lb && i < la {
                assert(text_lt(b@, a@));
                lemma_text_lt_asymmetric(a@, b@);
            } else {
                assert(a@ =~= b@) by {
                    assert(a@ =~= a@.subrange(0, i as int));
                    assert(b@ =~= b@.subrange(0, i as int));
                }
                lemma_text_lt_irreflexive(a@);
            }
        }
        false
    }
}

} // verus!
