use vstd::prelude::*;
use vstd::utf8::encode_utf8_decode_utf8;

verus! {

/// The key under which an address is ordered: its UTF-8 encoding.
pub open spec fn key_of(addr: Seq<char>) -> Seq<u8> {
    vstd::utf8::encode_utf8(addr)
}

/// Strict lexicographic order on byte strings (a proper prefix comes first).
pub open spec fn bytes_lt(a: Seq<u8>, b: Seq<u8>) -> bool
    decreases a.len(),
{
    if a.len() == 0 {
        b.len() > 0
    } else if b.len() == 0 {
        false
    } else if a[0] != b[0] {
        a[0] < b[0]
    } else {
        bytes_lt(a.drop_first(), b.drop_first())
    }
}

/// Strict order on addresses by their encoded bytes.
pub open spec fn addr_lt(a: Seq<char>, b: Seq<char>) -> bool {
    bytes_lt(key_of(a), key_of(b))
}

pub proof fn lemma_bytes_lt_irreflexive(a: Seq<u8>)
    ensures
        !bytes_lt(a, a),
    decreases a.len(),
{
    if a.len() > 0 {
        lemma_bytes_lt_irreflexive(a.drop_first());
    }
}

pub proof fn lemma_bytes_lt_transitive(a: Seq<u8>, b: Seq<u8>, c: Seq<u8>)
    requires
        bytes_lt(a, b),
        bytes_lt(b, c),
    ensures
        bytes_lt(a, c),
    decreases a.len(),
{
    if a.len() > 0 && b.len() > 0 && c.len() > 0 && a[0] == b[0] && b[0] == c[0] {
        lemma_bytes_lt_transitive(a.drop_first(), b.drop_first(), c.drop_first());
    }
}

/// Two byte strings that agree on a prefix compare as their remainders do.
proof fn lemma_bytes_lt_skip(a: Seq<u8>, b: Seq<u8>, i: int)
    requires
        0 <= i <= a.len(),
        i <= b.len(),
        a.subrange(0, i) == b.subrange(0, i),
    ensures
        bytes_lt(a, b) == bytes_lt(a.subrange(i, a.len() as int), b.subrange(i, b.len() as int)),
    decreases i,
{
    if i > 0 {
        assert(a[0] == a.subrange(0, i)[0]);
        assert(b[0] == b.subrange(0, i)[0]);
        assert(a.drop_first().subrange(0, i - 1) =~= a.subrange(0, i).drop_first());
        assert(b.drop_first().subrange(0, i - 1) =~= b.subrange(0, i).drop_first());
        lemma_bytes_lt_skip(a.drop_first(), b.drop_first(), i - 1);
        assert(a.drop_first().subrange(i - 1, a.len() - 1) =~= a.subrange(i, a.len() as int));
        assert(b.drop_first().subrange(i - 1, b.len() - 1) =~= b.subrange(i, b.len() as int));
    } else {
        assert(a.subrange(0, a.len() as int) =~= a);
        assert(b.subrange(0, b.len() as int) =~= b);
    }
}

/// Equal encodings come only from equal addresses.
pub proof fn lemma_key_injective(a: Seq<char>, b: Seq<char>)
    requires
        key_of(a) == key_of(b),
    ensures
        a == b,
{
    encode_utf8_decode_utf8(a);
    encode_utf8_decode_utf8(b);
}

/// Lexicographic comparison of the encodings of two addresses:
/// `Less`, `Equal` or `Greater` as `a` stands before, at or after `b`.
pub fn compare_addr(a: &String, b: &String) -> (r: core::cmp::Ordering)
    ensures
        r == core::cmp::Ordering::Less <==> addr_lt(a@, b@),
        r == core::cmp::Ordering::Equal <==> a@ == b@,
        r == core::cmp::Ordering::Greater <==> addr_lt(b@, a@),
{
    let x = a.as_str().as_bytes();
    let y = b.as_str().as_bytes();
    let ghost xs = x@;
    let ghost ys = y@;
    let n: usize = if x.len() < y.len() {
        x.len()
    } else {
        y.len()
    };
    let mut i: usize = 0;
    while i < n
        invariant
            xs == key_of(a@),
            ys == key_of(b@),
            x@ == xs,
            y@ == ys,
            n <= xs.len(),
            n <= ys.len(),
            n == xs.len() || n == ys.len(),
            i <= n,
            xs.subrange(0, i as int) == ys.subrange(0, i as int),
        decreases n - i,
    {
        if x[i] != y[i] {
            proof {
                lemma_bytes_lt_skip(xs, ys, i as int);
                lemma_bytes_lt_skip(ys, xs, i as int);
                let xr = xs.subrange(i as int, xs.len() as int);
                let yr = ys.subrange(i as int, ys.len() as int);
                assert(xr[0] == xs[i as int]);
                assert(yr[0] == ys[i as int]);
                if xs =~= ys {
                    assert(false);
                }
            }
            if x[i] < y[i] {
                return core::cmp::Ordering::Less;
            } else {
                return core::cmp::Ordering::Greater;
            }
        }
        assert(xs.subrange(0, i + 1) =~= xs.subrange(0, i as int).push(xs[i as int]));
        assert(ys.subrange(0, i + 1) =~= ys.subrange(0, i as int).push(ys[i as int]));
        i = i + 1;
    }
    proof {
        lemma_bytes_lt_skip(xs, ys, n as int);
        lemma_bytes_lt_skip(ys, xs, n as int);
    }
    if x.len() == y.len() {
        proof {
            assert(xs =~= xs.subrange(0, n as int));
            assert(ys =~= ys.subrange(0, n as int));
            lemma_key_injective(a@, b@);
            lemma_bytes_lt_irreflexive(xs);
        }
        core::cmp::Ordering::Equal
    } else if x.len() < y.len() {
        proof {
            if a@ == b@ {
                assert(false);
            }
        }
        core::cmp::Ordering::Less
    } else {
        proof {
            if a@ == b@ {
                assert(false);
            }
        }
        core::cmp::Ordering::Greater
    }
}

} // verus!
