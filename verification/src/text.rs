//! Strings as the rest of the library needs them: equality, order and search
//! by the bytes of their UTF-8 encoding.

use vstd::prelude::*;
use vstd::string::*;
use vstd::utf8::*;
use crate::order::is_strict_order;

verus! {

/// `a` and `b` agree on their first `k` bytes.
pub open spec fn common_prefix(a: Seq<u8>, b: Seq<u8>, k: int) -> bool {
    &&& 0 <= k <= a.len()
    &&& k <= b.len()
    &&& forall|j: int| 0 <= j < k ==> a[j] == b[j]
}

/// Lexicographic order on bytes: at the first place where the two differ `a`
/// has the smaller byte, or `a` ends there and `b` goes on.
pub open spec fn lex_lt(a: Seq<u8>, b: Seq<u8>) -> bool {
    exists|k: int| #[trigger]
        common_prefix(a, b, k) && k < b.len() && (k == a.len() || a[k] < b[k])
}

/// The order of strings: lexicographic by the bytes of their UTF-8 encoding,
/// which is the order of their code points.
pub open spec fn str_lt(a: Seq<char>, b: Seq<char>) -> bool {
    lex_lt(encode_utf8(a), encode_utf8(b))
}

/// Two places of first difference are the same place.
proof fn lemma_first_difference_unique(a: Seq<u8>, b: Seq<u8>, j: int, k: int)
    requires
        common_prefix(a, b, j),
        common_prefix(a, b, k),
        j < k,
    ensures
        j < a.len() && j < b.len() && a[j] == b[j],
{
}

/// No byte string comes before itself.
pub proof fn lemma_lex_lt_irreflexive(a: Seq<u8>)
    ensures
        !lex_lt(a, a),
{
}

/// Of two byte strings at most one comes before the other.
pub proof fn lemma_lex_lt_asymmetric(a: Seq<u8>, b: Seq<u8>)
    requires
        lex_lt(a, b),
    ensures
        !lex_lt(b, a),
{
    if lex_lt(b, a) {
        let j = choose|k: int| #[trigger]
            common_prefix(a, b, k) && k < b.len() && (k == a.len() || a[k] < b[k]);
        let k = choose|k: int| #[trigger]
            common_prefix(b, a, k) && k < a.len() && (k == b.len() || b[k] < a[k]);
        assert(common_prefix(a, b, k));
        if j < k {
            lemma_first_difference_unique(a, b, j, k);
        } else if k < j {
            lemma_first_difference_unique(a, b, k, j);
        }
    }
}

/// What comes before a byte string comes before all that it comes before.
pub proof fn lemma_lex_lt_transitive(a: Seq<u8>, b: Seq<u8>, c: Seq<u8>)
    requires
        lex_lt(a, b),
        lex_lt(b, c),
    ensures
        lex_lt(a, c),
{
    let j = choose|k: int| #[trigger]
        common_prefix(a, b, k) && k < b.len() && (k == a.len() || a[k] < b[k]);
    let k = choose|k: int| #[trigger]
        common_prefix(b, c, k) && k < c.len() && (k == b.len() || b[k] < c[k]);
    let m = if j <= k { j } else { k };
    assert(common_prefix(a, c, m));
}

/// Of two byte strings one comes first, or they are the same.
pub proof fn lemma_lex_lt_total(a: Seq<u8>, b: Seq<u8>)
    ensures
        lex_lt(a, b) || lex_lt(b, a) || a == b,
{
    lemma_lex_total_from(a, b, 0);
}

proof fn lemma_lex_total_from(a: Seq<u8>, b: Seq<u8>, k: int)
    requires
        common_prefix(a, b, k),
    ensures
        lex_lt(a, b) || lex_lt(b, a) || a == b,
    decreases a.len() - k,
{
    assert(common_prefix(b, a, k));
    if k == a.len() {
        if k == b.len() {
            assert(a =~= b);
        }
    } else if k == b.len() {
    } else if a[k] != b[k] {
    } else {
        assert(common_prefix(a, b, k + 1));
        lemma_lex_total_from(a, b, k + 1);
    }
}

/// Different strings have different encodings.
pub proof fn lemma_utf8_injective(a: Seq<char>, b: Seq<char>)
    requires
        encode_utf8(a) == encode_utf8(b),
    ensures
        a == b,
{
    encode_utf8_decode_utf8(a);
    encode_utf8_decode_utf8(b);
}

/// The encoding of two strings in a row is their encodings in a row.
pub proof fn lemma_encode_concat(a: Seq<char>, b: Seq<char>)
    ensures
        encode_utf8(a + b) == encode_utf8(a) + encode_utf8(b),
    decreases a.len(),
{
    if a.len() == 0 {
        assert(a + b =~= b);
        assert(encode_utf8(a) + encode_utf8(b) =~= encode_utf8(b));
    } else {
        lemma_encode_concat(a.drop_first(), b);
        assert((a + b).drop_first() =~= a.drop_first() + b);
        assert((a + b)[0] == a[0]);
        assert(encode_utf8(a + b) =~= encode_utf8(a) + encode_utf8(b));
    }
}

/// Of two different strings one comes before the other.
pub proof fn lemma_str_lt_total(a: Seq<char>, b: Seq<char>)
    ensures
        str_lt(a, b) || str_lt(b, a) || a == b,
{
    lemma_lex_lt_total(encode_utf8(a), encode_utf8(b));
    if encode_utf8(a) == encode_utf8(b) {
        lemma_utf8_injective(a, b);
    }
}

/// The order of strings, as an order to sort by.
pub open spec fn str_order() -> spec_fn(Seq<char>, Seq<char>) -> bool {
    |a: Seq<char>, b: Seq<char>| str_lt(a, b)
}

/// The order of strings is a strict order.
pub proof fn lemma_str_order_is_strict_order()
    ensures
        is_strict_order(str_order()),
{
    let before = str_order();
    assert forall|a: Seq<char>, b: Seq<char>, c: Seq<char>| #[trigger]
        before(a, b) && #[trigger] before(b, c) implies before(a, c) by {
        lemma_lex_lt_transitive(encode_utf8(a), encode_utf8(b), encode_utf8(c));
    }
    assert forall|a: Seq<char>, b: Seq<char>, c: Seq<char>|
        !#[trigger] before(a, b) && !#[trigger] before(b, c) implies !before(a, c) by {
        if str_lt(a, c) {
            lemma_str_lt_total(a, b);
            if str_lt(b, a) {
                lemma_lex_lt_transitive(encode_utf8(b), encode_utf8(a), encode_utf8(c));
            }
        }
    }
}

/// Whether two byte strings are the same.
pub fn bytes_eq(a: &[u8], b: &[u8]) -> (same: bool)
    ensures
        same == (a@ == b@),
{
    if a.len() != b.len() {
        return false;
    }
    let mut i: usize = 0;
    while i < a.len()
        invariant
            a@.len() == b@.len(),
            common_prefix(a@, b@, i as int),
        decreases a.len() - i,
    {
        if a[i] != b[i] {
            return false;
        }
        i += 1;
    }
    assert(a@ =~= b@);
    true
}

/// Whether `a` comes before `b` in lexicographic order.
pub fn bytes_lt(a: &[u8], b: &[u8]) -> (before: bool)
    ensures
        before == lex_lt(a@, b@),
{
    let mut i: usize = 0;
    while i < a.len() && i < b.len()
        invariant
            common_prefix(a@, b@, i as int),
        decreases a.len() - i,
    {
        if a[i] != b[i] {
            proof {
                if a@[i as int] > b@[i as int] {
                    assert(common_prefix(b@, a@, i as int));
                    assert(lex_lt(b@, a@));
                    lemma_lex_lt_asymmetric(b@, a@);
                }
            }
            return a[i] < b[i];
        }
        i += 1;
    }
    proof {
        if i >= b.len() {
            assert(common_prefix(b@, a@, i as int));
            if lex_lt(a@, b@) {
                if i < a.len() {
                    assert(lex_lt(b@, a@));
                    lemma_lex_lt_asymmetric(b@, a@);
                } else {
                    assert(a@ =~= b@);
                    lemma_lex_lt_irreflexive(a@);
                }
            }
        }
    }
    i < b.len()
}

/// Whether two strings are the same.
pub fn str_eq(a: &str, b: &str) -> (same: bool)
    ensures
        same == (a@ == b@),
{
    let same = bytes_eq(a.as_bytes(), b.as_bytes());
    proof {
        if same {
            lemma_utf8_injective(a@, b@);
        }
    }
    same
}

/// Whether `a` comes before `b` in the order of strings.
pub fn str_before(a: &str, b: &str) -> (before: bool)
    ensures
        before == str_lt(a@, b@),
{
    bytes_lt(a.as_bytes(), b.as_bytes())
}

/// `bytes` end with `suffix`.
pub open spec fn ends_with(bytes: Seq<u8>, suffix: Seq<u8>) -> bool {
    suffix.len() <= bytes.len() && bytes.skip(bytes.len() - suffix.len()) == suffix
}

/// `bytes` begin with `prefix`.
pub open spec fn starts_with(bytes: Seq<u8>, prefix: Seq<u8>) -> bool {
    prefix.len() <= bytes.len() && bytes.take(prefix.len() as int) == prefix
}

/// `needle` stands in `bytes` at the place `at`.
pub open spec fn occurs_at(bytes: Seq<u8>, needle: Seq<u8>, at: int) -> bool {
    0 <= at && at + needle.len() <= bytes.len() && bytes.subrange(at, at + needle.len()) == needle
}

/// `needle` stands somewhere in `bytes`.
pub open spec fn contains_bytes(bytes: Seq<u8>, needle: Seq<u8>) -> bool {
    exists|at: int| occurs_at(bytes, needle, at)
}

/// The place of the first `byte` in `bytes`, or their length where there is
/// none.
pub open spec fn first_index_of(bytes: Seq<u8>, byte: u8) -> nat
    decreases bytes.len(),
{
    if bytes.len() == 0 || bytes[0] == byte {
        0
    } else {
        1 + first_index_of(bytes.drop_first(), byte)
    }
}

/// The place of the last `byte` in `bytes`, or -1 where there is none.
pub open spec fn last_index_of(bytes: Seq<u8>, byte: u8) -> int
    decreases bytes.len(),
{
    if bytes.len() == 0 {
        -1
    } else if bytes.last() == byte {
        bytes.len() - 1
    } else {
        last_index_of(bytes.drop_last(), byte)
    }
}

/// The first place of a byte is where none stands before it.
pub proof fn lemma_first_index_of(bytes: Seq<u8>, byte: u8, at: int)
    requires
        0 <= at <= bytes.len(),
        forall|j: int| 0 <= j < at ==> bytes[j] != byte,
        at == bytes.len() || bytes[at] == byte,
    ensures
        first_index_of(bytes, byte) == at,
    decreases at,
{
    if at > 0 {
        let rest = bytes.drop_first();
        assert forall|j: int| 0 <= j < at - 1 implies rest[j] != byte by {
            assert(rest[j] == bytes[j + 1]);
        }
        lemma_first_index_of(rest, byte, at - 1);
    }
}

/// Whether `bytes` end with `suffix`.
pub fn bytes_end_with(bytes: &[u8], suffix: &[u8]) -> (ends: bool)
    ensures
        ends == ends_with(bytes@, suffix@),
{
    if suffix.len() > bytes.len() {
        return false;
    }
    let start = bytes.len() - suffix.len();
    bytes_eq(vstd::slice::slice_subrange(bytes, start, bytes.len()), suffix)
}

/// Whether `bytes` begin with `prefix`.
pub fn bytes_start_with(bytes: &[u8], prefix: &[u8]) -> (starts: bool)
    ensures
        starts == starts_with(bytes@, prefix@),
{
    if prefix.len() > bytes.len() {
        return false;
    }
    bytes_eq(vstd::slice::slice_subrange(bytes, 0, prefix.len()), prefix)
}

/// Whether `needle` stands somewhere in `bytes`.
pub fn bytes_contain(bytes: &[u8], needle: &[u8]) -> (found: bool)
    ensures
        found == contains_bytes(bytes@, needle@),
{
    let mut at: usize = 0;
    while at <= bytes.len() && bytes.len() - at >= needle.len()
        invariant
            forall|j: int| 0 <= j < at ==> !occurs_at(bytes@, needle@, j),
        decreases bytes.len() + 1 - at,
    {
        if bytes_eq(vstd::slice::slice_subrange(bytes, at, at + needle.len()), needle) {
            assert(occurs_at(bytes@, needle@, at as int));
            return true;
        }
        proof {
            if at == bytes.len() {
                assert(bytes@.subrange(at as int, at + needle.len()) =~= needle@);
            }
        }
        at += 1;
    }
    false
}

/// The place of the first `byte` in `bytes`, or their length where there is
/// none.
pub fn find_byte(bytes: &[u8], byte: u8) -> (at: usize)
    ensures
        at == first_index_of(bytes@, byte),
        at <= bytes.len(),
        at < bytes.len() ==> bytes@[at as int] == byte,
{
    let mut at: usize = 0;
    while at < bytes.len() && bytes[at] != byte
        invariant
            at <= bytes.len(),
            forall|j: int| 0 <= j < at ==> bytes@[j] != byte,
        decreases bytes.len() - at,
    {
        at += 1;
    }
    proof {
        lemma_first_index_of(bytes@, byte, at as int);
    }
    at
}

/// The place of the last `byte` in `bytes`, if there is one.
pub fn find_last_byte(bytes: &[u8], byte: u8) -> (at: Option<usize>)
    ensures
        match at {
            Some(at) => at == last_index_of(bytes@, byte) && at < bytes.len(),
            None => last_index_of(bytes@, byte) == -1,
        },
{
    let mut end: usize = bytes.len();
    proof {
        assert(bytes@.take(end as int) =~= bytes@);
    }
    while end > 0
        invariant
            end <= bytes.len(),
            last_index_of(bytes@, byte) == last_index_of(bytes@.take(end as int), byte),
        decreases end,
    {
        proof {
            let head = bytes@.take(end as int);
            assert(head.last() == bytes@[end - 1]);
            assert(head.drop_last() =~= bytes@.take(end - 1));
        }
        if bytes[end - 1] == byte {
            return Some(end - 1);
        }
        end -= 1;
    }
    None
}

} // verus!
