use vstd::prelude::*;

verus! {

/// The ASCII decimal digits of `n`, most significant first.
pub open spec fn decimal(n: nat) -> Seq<u8>
    decreases n,
{
    if n < 10 {
        seq![(48 + n) as u8]
    } else {
        decimal(n / 10).push((48 + n % 10) as u8)
    }
}

pub open spec fn pow256(k: nat) -> nat
    decreases k,
{
    if k == 0 {
        1
    } else {
        256 * pow256((k - 1) as nat)
    }
}

/// The number that the bytes `s` spell in big-endian order.
pub open spec fn be_value(s: Seq<u8>) -> nat
    decreases s.len(),
{
    if s.len() == 0 {
        0
    } else {
        be_value(s.drop_last()) * 256 + s.last() as nat
    }
}

/// The `k` lowest bytes of `x`, in big-endian order.
pub open spec fn be_bytes(x: nat, k: nat) -> Seq<u8>
    decreases k,
{
    if k == 0 {
        Seq::empty()
    } else {
        be_bytes(x / 256, (k - 1) as nat).push((x % 256) as u8)
    }
}

pub proof fn lemma_decimal_ascii(n: nat)
    ensures
        forall|i: int| 0 <= i < decimal(n).len() ==> 48 <= #[trigger] decimal(n)[i] <= 57,
    decreases n,
{
    if n >= 10 {
        lemma_decimal_ascii(n / 10);
        let d = decimal(n / 10);
        assert(decimal(n) == d.push((48 + n % 10) as u8));
        assert forall|i: int| 0 <= i < decimal(n).len() implies 48 <= #[trigger] decimal(n)[i]
            <= 57 by {
            if i < d.len() {
                assert(decimal(n)[i] == d[i]);
            }
        }
    } else {
        assert(decimal(n) == seq![(48 + n) as u8]);
    }
}

pub proof fn lemma_pow256_positive(k: nat)
    ensures
        pow256(k) > 0,
    decreases k,
{
    if k > 0 {
        lemma_pow256_positive((k - 1) as nat);
    }
}

pub proof fn lemma_be_value_bound(s: Seq<u8>)
    ensures
        be_value(s) < pow256(s.len()),
    decreases s.len(),
{
    if s.len() > 0 {
        let p = s.drop_last();
        lemma_be_value_bound(p);
        let v = be_value(p);
        let q = pow256(p.len());
        assert(v * 256 + (s.last() as nat) < 256 * q) by (nonlinear_arith)
            requires
                v < q,
                s.last() < 256,
        ;
    }
}

pub proof fn lemma_be_round_trip(x: nat, k: nat)
    ensures
        be_bytes(x, k).len() == k,
        be_value(be_bytes(x, k)) == x % pow256(k),
    decreases k,
{
    lemma_pow256_positive(k);
    if k > 0 {
        let k1 = (k - 1) as nat;
        lemma_be_round_trip(x / 256, k1);
        lemma_pow256_positive(k1);
        let b = be_bytes(x, k);
        assert(b.drop_last() == be_bytes(x / 256, k1));
        vstd::arithmetic::div_mod::lemma_mod_breakdown(x as int, 256, pow256(k1) as int);
        assert(be_value(b) == ((x / 256) % pow256(k1)) * 256 + x % 256);
        assert(pow256(k) == 256 * pow256(k1));
    }
}

pub proof fn lemma_pow256_eight()
    ensures
        pow256(8) == 0x1_0000_0000_0000_0000nat,
{
    reveal_with_fuel(pow256, 9);
}

/// Appends the decimal digits of `n` to `out`.
pub fn push_decimal(out: &mut Vec<u8>, n: u64)
    ensures
        final(out)@ == old(out)@ + decimal(n as nat),
    decreases n,
{
    let ghost start = out@;
    if n >= 10 {
        push_decimal(out, n / 10);
    }
    out.push(48u8 + (n % 10) as u8);
    proof {
        if n >= 10 {
            assert(out@ =~= start + decimal(n as nat));
        } else {
            assert(out@ =~= start + decimal(n as nat));
        }
    }
}

/// Appends the eight big-endian bytes of `x` to `out`.
pub fn push_u64(out: &mut Vec<u8>, x: u64)
    ensures
        final(out)@ == old(out)@ + be_bytes(x as nat, 8),
{
    push_be(out, x, 8);
}

fn push_be(out: &mut Vec<u8>, x: u64, k: u64)
    ensures
        final(out)@ == old(out)@ + be_bytes(x as nat, k as nat),
    decreases k,
{
    let ghost start = out@;
    if k > 0 {
        push_be(out, x / 256, k - 1);
        out.push((x % 256) as u8);
        proof {
            assert(out@ =~= start + be_bytes(x as nat, k as nat));
        }
    } else {
        proof {
            assert(out@ =~= start + be_bytes(x as nat, k as nat));
        }
    }
}

/// Reads eight big-endian bytes of `b` from `start` on.
pub fn read_u64(b: &Vec<u8>, start: usize) -> (r: u64)
    requires
        start + 8 <= b@.len(),
    ensures
        r as nat == be_value(b@.subrange(start as int, start + 8)),
        r == be_value(b@.subrange(start as int, start + 8)) as u64,
{
    let mut acc: u64 = 0;
    let mut i: usize = 0;
    proof {
        lemma_pow256_eight();
        assert(b@.subrange(start as int, start as int) =~= Seq::<u8>::empty());
    }
    while i < 8
        invariant
            i <= 8,
            start + 8 <= b@.len(),
            acc as nat == be_value(b@.subrange(start as int, start + i)),
            pow256(8) == 0x1_0000_0000_0000_0000nat,
        decreases 8 - i,
    {
        let ghost s = b@.subrange(start as int, start + i + 1);
        proof {
            assert(s.drop_last() =~= b@.subrange(start as int, start + i));
            lemma_be_value_bound(s);
            assert(s.last() == b@[start + i]);
            assert(be_value(s) == acc as nat * 256 + b@[start + i] as nat);
            assert(s.len() == i + 1);
            assert(pow256(s.len()) <= pow256(8)) by {
                lemma_pow256_monotone(s.len(), 8);
            }
            assert((acc as nat) * 256 + (b@[start + i] as nat) < 0x1_0000_0000_0000_0000nat);
        }
        assert(start + i < b.len());
        let byte: u64 = b[start + i] as u64;
        acc = acc * 256 + byte;
        i = i + 1;
    }
    acc
}

pub proof fn lemma_pow256_monotone(a: nat, b: nat)
    requires
        a <= b,
    ensures
        pow256(a) <= pow256(b),
    decreases b,
{
    if a < b {
        lemma_pow256_monotone(a, (b - 1) as nat);
        lemma_pow256_positive((b - 1) as nat);
    }
}

/// A copy of `v`.
pub fn copy_bytes(v: &Vec<u8>) -> (r: Vec<u8>)
    ensures
        r@ == v@,
{
    let mut r: Vec<u8> = Vec::new();
    let mut i: usize = 0;
    while i < v.len()
        invariant
            i <= v@.len(),
            r@ == v@.subrange(0, i as int),
        decreases v@.len() - i,
    {
        r.push(v[i]);
        i = i + 1;
        proof {
            assert(r@ =~= v@.subrange(0, i as int));
        }
    }
    proof {
        assert(r@ =~= v@);
    }
    r
}

/// Appends the bytes of `src` to `out`.
pub fn extend_bytes(out: &mut Vec<u8>, src: &Vec<u8>)
    ensures
        final(out)@ == old(out)@ + src@,
{
    let mut c = copy_bytes(src);
    out.append(&mut c);
}

/// Whether two byte strings are equal.
pub fn bytes_eq(a: &Vec<u8>, b: &Vec<u8>) -> (r: bool)
    ensures
        r == (a@ == b@),
{
    if a.len() != b.len() {
        return false;
    }
    let mut i: usize = 0;
    while i < a.len()
        invariant
            i <= a@.len(),
            a@.len() == b@.len(),
            forall|j: int| 0 <= j < i ==> a@[j] == b@[j],
        decreases a@.len() - i,
    {
        if a[i] != b[i] {
            return false;
        }
        i = i + 1;
    }
    proof {
        assert(a@ =~= b@);
    }
    true
}

/// Relies on std's String::from_utf8: ASCII bytes are valid UTF-8, one
/// character for each byte.
#[verifier::external_body]
pub(crate) fn ascii_string(b: Vec<u8>) -> (r: String)
    requires
        forall|i: int| 0 <= i < b@.len() ==> #[trigger] b@[i] < 128,
    ensures
        r@ == b@.map_values(|c: u8| c as char),
{
    String::from_utf8(b).unwrap()
}

pub open spec fn be8(x: u64) -> Seq<u8> {
    be_bytes(x as nat, 8)
}

pub proof fn lemma_be8(x: u64)
    ensures
        be8(x).len() == 8,
        be_value(be8(x)) as u64 == x,
{
    lemma_be_round_trip(x as nat, 8);
    lemma_pow256_eight();
}

} // verus!
