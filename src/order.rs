//! The order in which a scan returns keys (SQLite's order on the key columns: bytes of
//! a blob, code points of a text, each compared lexicographically), and the comparison
//! that snapshots search by.

use vstd::prelude::*;
use crate::identity::str_eq;
use crate::ip::{ip_bytes, ip_to_vec8, lemma_ip_bytes_injective};
use crate::model::{Key, KeyView};

verus! {

/// Lexicographic order: at the first difference the smaller element comes first, and a
/// proper prefix comes before the longer sequence.
pub open spec fn seq_lt(a: Seq<int>, b: Seq<int>) -> bool
    decreases a.len(),
{
    if a.len() == 0 {
        b.len() > 0
    } else if b.len() == 0 {
        false
    } else if a[0] != b[0] {
        a[0] < b[0]
    } else {
        seq_lt(a.drop_first(), b.drop_first())
    }
}

/// The bytes of a blob, as numbers.
pub open spec fn byte_ints(b: Seq<u8>) -> Seq<int> {
    b.map_values(|x: u8| x as int)
}

/// The code points of a text.
pub open spec fn char_ints(s: Seq<char>) -> Seq<int> {
    s.map_values(|c: char| c as int)
}

/// The order of keys: texts by code point, addresses by their encoding, networks by the
/// encoding of their address and then by prefix length.
pub open spec fn key_lt(a: KeyView, b: KeyView) -> bool {
    match (a, b) {
        (KeyView::Text(x), KeyView::Text(y)) => seq_lt(char_ints(x), char_ints(y)),
        (KeyView::Ip(x), KeyView::Ip(y)) => seq_lt(byte_ints(ip_bytes(x)), byte_ints(ip_bytes(y))),
        (KeyView::Net(x, p), KeyView::Net(y, q)) => seq_lt(
            byte_ints(ip_bytes(x)),
            byte_ints(ip_bytes(y)),
        ) || (ip_bytes(x) == ip_bytes(y) && p < q),
        _ => key_rank(a) < key_rank(b),
    }
}

/// Keys of different shapes order by shape.
pub open spec fn key_rank(k: KeyView) -> int {
    match k {
        KeyView::Text(_) => 0,
        KeyView::Ip(_) => 1,
        KeyView::Net(_, _) => 2,
    }
}

proof fn lemma_seq_lt_irreflexive(a: Seq<int>)
    ensures
        !seq_lt(a, a),
    decreases a.len(),
{
    if a.len() > 0 {
        lemma_seq_lt_irreflexive(a.drop_first());
    }
}

proof fn lemma_seq_lt_trans(a: Seq<int>, b: Seq<int>, c: Seq<int>)
    requires
        seq_lt(a, b),
        seq_lt(b, c),
    ensures
        seq_lt(a, c),
    decreases a.len(),
{
    if a.len() > 0 && b.len() > 0 && c.len() > 0 && a[0] == b[0] && b[0] == c[0] {
        lemma_seq_lt_trans(a.drop_first(), b.drop_first(), c.drop_first());
    }
}

proof fn lemma_seq_lt_total(a: Seq<int>, b: Seq<int>)
    requires
        a != b,
    ensures
        seq_lt(a, b) || seq_lt(b, a),
    decreases a.len(),
{
    if a.len() > 0 && b.len() > 0 && a[0] == b[0] {
        if a.drop_first() == b.drop_first() {
            assert(a =~= seq![a[0]] + a.drop_first());
            assert(b =~= seq![b[0]] + b.drop_first());
        }
        lemma_seq_lt_total(a.drop_first(), b.drop_first());
    } else if a.len() == 0 && b.len() == 0 {
        assert(a =~= b);
    }
}

proof fn lemma_byte_ints_injective(a: Seq<u8>, b: Seq<u8>)
    requires
        byte_ints(a) == byte_ints(b),
    ensures
        a == b,
{
    assert(a.len() == byte_ints(a).len() == byte_ints(b).len() == b.len());
    assert forall|i: int| 0 <= i < a.len() implies a[i] == b[i] by {
        assert(byte_ints(a)[i] == a[i] as int);
        assert(byte_ints(b)[i] == b[i] as int);
    }
    assert(a =~= b);
}

proof fn lemma_char_ints_injective(a: Seq<char>, b: Seq<char>)
    requires
        char_ints(a) == char_ints(b),
    ensures
        a == b,
{
    assert(a.len() == char_ints(a).len() == char_ints(b).len() == b.len());
    assert forall|i: int| 0 <= i < a.len() implies a[i] == b[i] by {
        assert(char_ints(a)[i] == a[i] as int);
        assert(char_ints(b)[i] == b[i] as int);
    }
    assert(a =~= b);
}

/// No key comes before itself.
pub proof fn lemma_key_lt_irreflexive(a: KeyView)
    ensures
        !key_lt(a, a),
{
    match a {
        KeyView::Text(x) => lemma_seq_lt_irreflexive(char_ints(x)),
        KeyView::Ip(x) => lemma_seq_lt_irreflexive(byte_ints(ip_bytes(x))),
        KeyView::Net(x, _) => lemma_seq_lt_irreflexive(byte_ints(ip_bytes(x))),
    }
}

/// The order of keys is transitive.
pub proof fn lemma_key_lt_trans(a: KeyView, b: KeyView, c: KeyView)
    requires
        key_lt(a, b),
        key_lt(b, c),
    ensures
        key_lt(a, c),
{
    match (a, b, c) {
        (KeyView::Text(x), KeyView::Text(y), KeyView::Text(z)) => lemma_seq_lt_trans(
            char_ints(x),
            char_ints(y),
            char_ints(z),
        ),
        (KeyView::Ip(x), KeyView::Ip(y), KeyView::Ip(z)) => lemma_seq_lt_trans(
            byte_ints(ip_bytes(x)),
            byte_ints(ip_bytes(y)),
            byte_ints(ip_bytes(z)),
        ),
        (KeyView::Net(x, _), KeyView::Net(y, _), KeyView::Net(z, _)) => {
            let (bx, by, bz) = (byte_ints(ip_bytes(x)), byte_ints(ip_bytes(y)), byte_ints(ip_bytes(z)));
            if seq_lt(bx, by) && seq_lt(by, bz) {
                lemma_seq_lt_trans(bx, by, bz);
            }
        },
        _ => {},
    }
}

/// Any two different keys are ordered one way or the other.
pub proof fn lemma_key_lt_total(a: KeyView, b: KeyView)
    requires
        a != b,
    ensures
        key_lt(a, b) || key_lt(b, a),
{
    match (a, b) {
        (KeyView::Text(x), KeyView::Text(y)) => {
            if char_ints(x) == char_ints(y) {
                lemma_char_ints_injective(x, y);
            } else {
                lemma_seq_lt_total(char_ints(x), char_ints(y));
            }
        },
        (KeyView::Ip(x), KeyView::Ip(y)) => {
            if byte_ints(ip_bytes(x)) == byte_ints(ip_bytes(y)) {
                lemma_byte_ints_injective(ip_bytes(x), ip_bytes(y));
                lemma_ip_bytes_injective(x, y);
            } else {
                lemma_seq_lt_total(byte_ints(ip_bytes(x)), byte_ints(ip_bytes(y)));
            }
        },
        (KeyView::Net(x, p), KeyView::Net(y, q)) => {
            if byte_ints(ip_bytes(x)) == byte_ints(ip_bytes(y)) {
                lemma_byte_ints_injective(ip_bytes(x), ip_bytes(y));
                lemma_ip_bytes_injective(x, y);
            } else {
                lemma_seq_lt_total(byte_ints(ip_bytes(x)), byte_ints(ip_bytes(y)));
            }
        },
        _ => {},
    }
}

proof fn lemma_seq_lt_skip(a: Seq<int>, b: Seq<int>, i: int)
    requires
        0 <= i <= a.len(),
        i <= b.len(),
        forall|j: int| 0 <= j < i ==> a[j] == b[j],
    ensures
        seq_lt(a, b) == seq_lt(a.skip(i), b.skip(i)),
    decreases i,
{
    if i > 0 {
        let (a1, b1) = (a.drop_first(), b.drop_first());
        assert forall|j: int| 0 <= j < i - 1 implies a1[j] == b1[j] by {
            assert(a1[j] == a[j + 1]);
            assert(b1[j] == b[j + 1]);
        }
        lemma_seq_lt_skip(a1, b1, i - 1);
        assert(a1.skip(i - 1) =~= a.skip(i));
        assert(b1.skip(i - 1) =~= b.skip(i));
    } else {
        assert(a.skip(0) =~= a);
        assert(b.skip(0) =~= b);
    }
}

/// Compares two byte strings: negative, zero or positive as `a` comes before, equals or
/// comes after `b`.
pub fn compare_bytes(a: &Vec<u8>, b: &Vec<u8>) -> (r: i8)
    ensures
        (r < 0) == seq_lt(byte_ints(a@), byte_ints(b@)),
        (r == 0) == (a@ == b@),
        (r > 0) == seq_lt(byte_ints(b@), byte_ints(a@)),
{
    let ghost (x, y) = (byte_ints(a@), byte_ints(b@));
    let mut i: usize = 0;
    while i < a.len() && i < b.len()
        invariant
            i <= a@.len(),
            i <= b@.len(),
            x == byte_ints(a@),
            y == byte_ints(b@),
            forall|j: int| 0 <= j < i ==> a@[j] == b@[j],
        decreases a@.len() - i,
    {
        if a[i] != b[i] {
            proof {
                assert forall|j: int| 0 <= j < i implies x[j] == y[j] by {}
                lemma_seq_lt_skip(x, y, i as int);
                lemma_seq_lt_skip(y, x, i as int);
                assert(x.skip(i as int)[0] == a@[i as int] as int);
                assert(y.skip(i as int)[0] == b@[i as int] as int);
            }
            return if a[i] < b[i] {
                -1
            } else {
                1
            };
        }
        i = i + 1;
    }
    proof {
        assert forall|j: int| 0 <= j < i implies x[j] == y[j] by {}
        lemma_seq_lt_skip(x, y, i as int);
        lemma_seq_lt_skip(y, x, i as int);
    }
    if a.len() == b.len() {
        assert(a@ =~= b@);
        proof {
            lemma_seq_lt_irreflexive(x);
        }
        0
    } else if a.len() < b.len() {
        -1
    } else {
        1
    }
}

/// Compares two texts by code point, as `compare_bytes` does bytes.
pub fn compare_text(a: &str, b: &str) -> (r: i8)
    ensures
        (r < 0) == seq_lt(char_ints(a@), char_ints(b@)),
        (r == 0) == (a@ == b@),
        (r > 0) == seq_lt(char_ints(b@), char_ints(a@)),
{
    let ghost (x, y) = (char_ints(a@), char_ints(b@));
    let n = a.unicode_len();
    let m = b.unicode_len();
    let mut i: usize = 0;
    while i < n && i < m
        invariant
            n == a@.len(),
            m == b@.len(),
            i <= n,
            i <= m,
            x == char_ints(a@),
            y == char_ints(b@),
            forall|j: int| 0 <= j < i ==> a@[j] == b@[j],
        decreases n - i,
    {
        let c = a.get_char(i);
        let d = b.get_char(i);
        if c != d {
            proof {
                assert forall|j: int| 0 <= j < i implies x[j] == y[j] by {}
                lemma_seq_lt_skip(x, y, i as int);
                lemma_seq_lt_skip(y, x, i as int);
                assert(x.skip(i as int)[0] == c as int);
                assert(y.skip(i as int)[0] == d as int);
            }
            return if (c as u32) < (d as u32) {
                -1
            } else {
                1
            };
        }
        i = i + 1;
    }
    proof {
        assert forall|j: int| 0 <= j < i implies x[j] == y[j] by {}
        lemma_seq_lt_skip(x, y, i as int);
        lemma_seq_lt_skip(y, x, i as int);
    }
    if n == m {
        assert(a@ =~= b@);
        proof {
            lemma_seq_lt_irreflexive(x);
        }
        0
    } else if n < m {
        -1
    } else {
        1
    }
}

/// Compares two keys in the order `key_lt`.
pub fn compare_keys(a: &Key, b: &Key) -> (r: i8)
    ensures
        (r < 0) == key_lt(a@, b@),
        (r == 0) == (a@ == b@),
        (r > 0) == key_lt(b@, a@),
{
    proof {
        lemma_key_lt_irreflexive(a@);
        if a@ != b@ {
            lemma_key_lt_total(a@, b@);
        }
    }
    match (a, b) {
        (Key::Text(x), Key::Text(y)) => compare_text(x.as_str(), y.as_str()),
        (Key::Ip(x), Key::Ip(y)) => {
            let c = compare_bytes(&ip_to_vec8(x), &ip_to_vec8(y));
            proof {
                if c == 0 {
                    lemma_ip_bytes_injective(*x, *y);
                }
            }
            c
        },
        (Key::Net(x, p), Key::Net(y, q)) => {
            let c = compare_bytes(&ip_to_vec8(x), &ip_to_vec8(y));
            proof {
                if c == 0 {
                    lemma_ip_bytes_injective(*x, *y);
                }
            }
            if c != 0 {
                c
            } else if *p < *q {
                -1
            } else if *p == *q {
                0
            } else {
                1
            }
        },
        (Key::Text(_), _) => -1,
        (_, Key::Text(_)) => 1,
        (Key::Ip(_), _) => -1,
        (_, Key::Ip(_)) => 1,
    }
}

} // verus!
