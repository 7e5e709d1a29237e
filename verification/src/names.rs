use vstd::prelude::*;

verus! {

/// Lexicographic order on byte strings (a proper prefix comes first), the order of
/// Rust's `str`.
pub open spec fn bytes_lt(a: Seq<u8>, b: Seq<u8>) -> bool
    decreases a.len(),
{
    if a.len() == 0 {
        b.len() > 0
    } else if b.len() == 0 {
        false
    } else if a[0] != b[0] {
        a[0] < b[0]
    } else {
        bytes_lt(a.drop_first(), b.drop_first())
    }
}

/// The order of uniform names: that of their UTF-8 bytes, as Rust orders `String`s.
pub open spec fn name_lt(a: Seq<char>, b: Seq<char>) -> bool {
    bytes_lt(vstd::utf8::encode_utf8(a), vstd::utf8::encode_utf8(b))
}

pub(crate) proof fn lemma_bytes_lt_transitive(a: Seq<u8>, b: Seq<u8>, c: Seq<u8>)
    requires
        bytes_lt(a, b),
        bytes_lt(b, c),
    ensures
        bytes_lt(a, c),
    decreases a.len(),
{
    if a.len() > 0 && b.len() > 0 && c.len() > 0 && a[0] == b[0] && b[0] == c[0] {
        lemma_bytes_lt_transitive(a.drop_first(), b.drop_first(), c.drop_first());
    }
}

proof fn lemma_bytes_lt_total(a: Seq<u8>, b: Seq<u8>)
    requires
        a != b,
    ensures
        bytes_lt(a, b) || bytes_lt(b, a),
    decreases a.len(),
{
    if a.len() == 0 {
        assert(b.len() > 0) by {
            if b.len() == 0 {
                assert(a =~= b);
            }
        }
    } else if b.len() == 0 {
    } else if a[0] == b[0] {
        assert(a.drop_first() != b.drop_first()) by {
            if a.drop_first() == b.drop_first() {
                assert(a =~= seq![a[0]] + a.drop_first());
                assert(b =~= seq![b[0]] + b.drop_first());
            }
        }
        lemma_bytes_lt_total(a.drop_first(), b.drop_first());
    }
}

pub(crate) proof fn lemma_bytes_lt_asymmetric(a: Seq<u8>, b: Seq<u8>)
    ensures
        !(bytes_lt(a, b) && bytes_lt(b, a)),
    decreases a.len(),
{
    if a.len() > 0 && b.len() > 0 && a[0] == b[0] {
        lemma_bytes_lt_asymmetric(a.drop_first(), b.drop_first());
    }
}

/// Distinct names are ordered one way or the other.
pub(crate) proof fn lemma_name_lt_total(a: Seq<char>, b: Seq<char>)
    requires
        a != b,
    ensures
        name_lt(a, b) || name_lt(b, a),
{
    broadcast use vstd::utf8::encode_utf8_decode_utf8;

    assert(vstd::utf8::encode_utf8(a) != vstd::utf8::encode_utf8(b)) by {
        if vstd::utf8::encode_utf8(a) == vstd::utf8::encode_utf8(b) {
            assert(vstd::utf8::decode_utf8(vstd::utf8::encode_utf8(a)) == a);
            assert(vstd::utf8::decode_utf8(vstd::utf8::encode_utf8(b)) == b);
        }
    }
    lemma_bytes_lt_total(vstd::utf8::encode_utf8(a), vstd::utf8::encode_utf8(b));
}

/// Whether `a` comes before `b` in the order of Rust's `String`.
pub(crate) fn name_less(a: &String, b: &String) -> (r: bool)
    ensures
        r == name_lt(a@, b@),
{
    let x = a.as_str().as_bytes();
    let y = b.as_str().as_bytes();
    let ghost xs = vstd::utf8::encode_utf8(a@);
    let ghost ys = vstd::utf8::encode_utf8(b@);
    assert(x@ == xs);
    assert(y@ == ys);
    assert(xs.subrange(0, xs.len() as int) =~= xs);
    assert(ys.subrange(0, ys.len() as int) =~= ys);
    let mut i: usize = 0;
    while i < x.len() && i < y.len()
        invariant
            xs == vstd::utf8::encode_utf8(a@),
            ys == vstd::utf8::encode_utf8(b@),
            x@ == xs,
            y@ == ys,
            i <= x.len(),
            i <= y.len(),
            bytes_lt(xs, ys) == bytes_lt(
                xs.subrange(i as int, xs.len() as int),
                ys.subrange(i as int, ys.len() as int),
            ),
        decreases x.len() - i,
    {
        if x[i] != y[i] {
            assert(xs.subrange(i as int, xs.len() as int)[0] == x[i as int]);
            assert(ys.subrange(i as int, ys.len() as int)[0] == y[i as int]);
            assert(xs.subrange(i as int, xs.len() as int).len() > 0);
            assert(ys.subrange(i as int, ys.len() as int).len() > 0);
            assert(bytes_lt(
                xs.subrange(i as int, xs.len() as int),
                ys.subrange(i as int, ys.len() as int),
            ) == (x[i as int] < y[i as int]));
            return x[i] < y[i];
        }
        assert(xs.subrange(i as int, xs.len() as int).drop_first() =~= xs.subrange(
            i + 1,
            xs.len() as int,
        ));
        assert(ys.subrange(i as int, ys.len() as int).drop_first() =~= ys.subrange(
            i + 1,
            ys.len() as int,
        ));
        i = i + 1;
    }
    x.len() < y.len()
}

pub(crate) proof fn lemma_bytes_lt_irreflexive(a: Seq<u8>)
    ensures
        !bytes_lt(a, a),
    decreases a.len(),
{
    if a.len() > 0 {
        lemma_bytes_lt_irreflexive(a.drop_first());
    }
}

/// Whether the names in `s` are in strictly increasing order.
pub open spec fn strictly_sorted(s: Seq<Seq<char>>) -> bool {
    forall|a: int, b: int| 0 <= a < b < s.len() ==> name_lt(#[trigger] s[a], #[trigger] s[b])
}

/// Two strictly sorted lists of the same names are the same list.
pub(crate) proof fn lemma_sorted_unique(x: Seq<Seq<char>>, y: Seq<Seq<char>>)
    requires
        strictly_sorted(x),
        strictly_sorted(y),
        forall|n: Seq<char>| x.contains(n) <==> y.contains(n),
    ensures
        x == y,
    decreases x.len() + y.len(),
{
    if x.len() == 0 || y.len() == 0 {
        if x.len() > 0 {
            assert(x.contains(x[0]));
        }
        if y.len() > 0 {
            assert(y.contains(y[0]));
        }
        assert(x =~= y);
    } else {
        assert(x[0] == y[0]) by {
            if x[0] != y[0] {
                assert(x.contains(x[0]));
                assert(y.contains(x[0]));
                let k = choose|k: int| 0 <= k < y.len() && y[k] == x[0];
                assert(y.contains(y[0]));
                assert(x.contains(y[0]));
                let m = choose|m: int| 0 <= m < x.len() && x[m] == y[0];
                assert(k > 0);
                assert(m > 0);
                assert(name_lt(y[0], y[k]));
                assert(name_lt(x[0], x[m]));
                lemma_bytes_lt_asymmetric(
                    vstd::utf8::encode_utf8(x[0]),
                    vstd::utf8::encode_utf8(y[0]),
                );
            }
        }
        let x1 = x.drop_first();
        let y1 = y.drop_first();
        assert forall|n: Seq<char>| x1.contains(n) <==> y1.contains(n) by {
            if x1.contains(n) {
                let i = choose|i: int| 0 <= i < x1.len() && x1[i] == n;
                assert(x[i + 1] == n);
                assert(name_lt(x[0], x[i + 1]));
                assert(n != x[0]) by {
                    lemma_bytes_lt_irreflexive(vstd::utf8::encode_utf8(n));
                }
                assert(x.contains(n));
                assert(y.contains(n));
                let k = choose|k: int| 0 <= k < y.len() && y[k] == n;
                assert(k != 0);
                assert(y1[k - 1] == n);
            }
            if y1.contains(n) {
                let i = choose|i: int| 0 <= i < y1.len() && y1[i] == n;
                assert(y[i + 1] == n);
                assert(name_lt(y[0], y[i + 1]));
                assert(n != y[0]) by {
                    lemma_bytes_lt_irreflexive(vstd::utf8::encode_utf8(n));
                }
                assert(y.contains(n));
                assert(x.contains(n));
                let k = choose|k: int| 0 <= k < x.len() && x[k] == n;
                assert(k != 0);
                assert(x1[k - 1] == n);
            }
        }
        assert(strictly_sorted(x1)) by {
            assert forall|a: int, b: int| 0 <= a < b < x1.len() implies name_lt(#[trigger] x1[a], #[trigger] x1[b]) by {
                assert(x1[a] == x[a + 1] && x1[b] == x[b + 1]);
            }
        }
        assert(strictly_sorted(y1)) by {
            assert forall|a: int, b: int| 0 <= a < b < y1.len() implies name_lt(#[trigger] y1[a], #[trigger] y1[b]) by {
                assert(y1[a] == y[a + 1] && y1[b] == y[b + 1]);
            }
        }
        lemma_sorted_unique(x1, y1);
        assert(x =~= seq![x[0]] + x1);
        assert(y =~= seq![y[0]] + y1);
    }
}

} // verus!
