use vstd::prelude::*;

verus! {

/// The value of a byte sequence read as a big-endian number.
pub open spec fn be_value(s: Seq<u8>) -> nat
    decreases s.len(),
{
    if s.len() == 0 {
        0
    } else {
        (be_value(s.drop_last()) * 256 + s.last()) as nat
    }
}

/// The base-58 digits of `n`, most significant first; none for zero.
pub open spec fn base58_digits(n: nat) -> Seq<nat>
    decreases n,
{
    if n == 0 {
        Seq::empty()
    } else {
        base58_digits(n / 58).push(n % 58)
    }
}

/// The number of zero bytes at the start of a byte sequence.
pub open spec fn leading_zero_bytes(s: Seq<u8>) -> nat
    decreases s.len(),
{
    if s.len() > 0 && s[0] == 0 {
        1 + leading_zero_bytes(s.drop_first())
    } else {
        0
    }
}

/// Digit `d` of the Bitcoin Base58 alphabet
/// `123456789ABCDEFGHJKLMNPQRSTUVWXYZabcdefghijkmnopqrstuvwxyz`.
pub open spec fn base58_letter(d: nat) -> char {
    if d < 9 {
        ('1' as int + d) as char
    } else if d < 17 {
        ('A' as int + (d - 9)) as char
    } else if d < 22 {
        ('J' as int + (d - 17)) as char
    } else if d < 33 {
        ('P' as int + (d - 22)) as char
    } else if d < 44 {
        ('a' as int + (d - 33)) as char
    } else {
        ('m' as int + (d - 44)) as char
    }
}

/// Base58 with the Bitcoin alphabet: one `'1'` per leading zero byte, then
/// the base-58 digits of the big-endian value of the bytes.
pub open spec fn base58_encoding(data: Seq<u8>) -> Seq<char> {
    Seq::new(leading_zero_bytes(data), |i: int| '1') + base58_digits(be_value(data)).map_values(
        |d: nat| base58_letter(d),
    )
}

/// Calls `bs58::encode(data).into_string()` (default Bitcoin alphabet, no
/// checksum). Claimed: the result is the Base58 text of the input as
/// `base58_encoding` defines it, which is what `encode_into` in the crate's
/// source computes.
#[verifier::external_body]
pub(crate) fn bs58_encode(data: &[u8]) -> (res: String)
    ensures
        res@ == base58_encoding(data@),
{
    bs58::encode(data).into_string()
}

/// `58` to the power `k`.
pub open spec fn pow58(k: nat) -> nat
    decreases k,
{
    if k == 0 {
        1
    } else {
        58 * pow58((k - 1) as nat)
    }
}

/// `256` to the power `k`.
pub open spec fn pow256(k: nat) -> nat
    decreases k,
{
    if k == 0 {
        1
    } else {
        256 * pow256((k - 1) as nat)
    }
}

/// A number with `k + 1` base-58 digits has `n / 58^k` as its leading digit.
pub proof fn lemma_leading_digit(n: nat, k: nat)
    requires
        pow58(k) <= n < pow58(k + 1),
    ensures
        base58_digits(n).len() == k + 1,
        base58_digits(n)[0] == n / pow58(k),
    decreases k,
{
    if k == 0 {
        assert(n / 58 == 0);
        assert(base58_digits(0) =~= Seq::<nat>::empty());
    } else {
        let m = n / 58;
        let km1 = (k - 1) as nat;
        assert(pow58(k) == 58 * pow58(km1));
        assert(pow58(k + 1) == 58 * pow58(k));
        assert(pow58(km1) <= m) by {
            vstd::arithmetic::div_mod::lemma_div_is_ordered(58 * pow58(km1) as int, n as int, 58);
            vstd::arithmetic::div_mod::lemma_div_multiples_vanish(pow58(km1) as int, 58);
        }
        assert(m < pow58(k)) by {
            vstd::arithmetic::div_mod::lemma_multiply_divide_lt(n as int, 58, pow58(k) as int);
        }
        lemma_leading_digit(m, km1);
        assert(pow58(km1) > 0) by {
            lemma_pow58_positive(km1);
        }
        vstd::arithmetic::div_mod::lemma_div_denominator(n as int, 58, pow58(km1) as int);
    }
}

/// Powers of 58 are positive.
pub proof fn lemma_pow58_positive(k: nat)
    ensures
        pow58(k) > 0,
    decreases k,
{
    if k > 0 {
        lemma_pow58_positive((k - 1) as nat);
    }
}

/// A byte sequence read as a big-endian number is below `256^len`.
pub proof fn lemma_be_value_bound(s: Seq<u8>)
    ensures
        be_value(s) < pow256(s.len()),
    decreases s.len(),
{
    if s.len() > 0 {
        lemma_be_value_bound(s.drop_last());
        let p = pow256((s.len() - 1) as nat);
        assert(be_value(s.drop_last()) + 1 <= p);
        assert((be_value(s.drop_last()) + 1) * 256 <= p * 256) by (nonlinear_arith)
            requires
                be_value(s.drop_last()) + 1 <= p,
        ;
    }
}

/// The big-endian value of a byte followed by more bytes.
pub proof fn lemma_be_value_prepend(v: u8, rest: Seq<u8>)
    ensures
        be_value(seq![v] + rest) == v * pow256(rest.len()) + be_value(rest),
    decreases rest.len(),
{
    let s = seq![v] + rest;
    if rest.len() == 0 {
        assert(s.drop_last() =~= Seq::<u8>::empty());
        assert(s.last() == v);
        assert(be_value(s) == be_value(s.drop_last()) * 256 + s.last());
        assert(be_value(Seq::<u8>::empty()) == 0);
        assert(pow256(0) == 1);
        assert(v * pow256(0) == v) by (nonlinear_arith)
            requires
                pow256(0) == 1,
        ;
    } else {
        assert(s.drop_last() =~= seq![v] + rest.drop_last());
        assert(s.last() == rest.last());
        lemma_be_value_prepend(v, rest.drop_last());
        let p = pow256((rest.len() - 1) as nat);
        let b = be_value(rest.drop_last());
        assert(pow256(rest.len()) == 256 * p);
        assert(be_value(s) == be_value(s.drop_last()) * 256 + s.last());
        assert(be_value(rest) == b * 256 + rest.last());
        assert(be_value(s.drop_last()) == v * p + b);
        assert((v * p + b) * 256 == v * (256 * p) + b * 256) by (nonlinear_arith);
        assert(v * pow256(rest.len()) == v * (256 * p));
    }
}

/// The first letter of the Base58 text of a byte sequence whose first byte is
/// not zero and whose value has `k + 1` base-58 digits.
pub proof fn lemma_base58_first_letter(data: Seq<u8>, k: nat)
    requires
        data.len() > 0,
        data[0] != 0,
        pow58(k) <= be_value(data) < pow58(k + 1),
    ensures
        base58_encoding(data).len() == k + 1,
        base58_encoding(data)[0] == base58_letter(be_value(data) / pow58(k)),
{
    lemma_leading_digit(be_value(data), k);
    assert(leading_zero_bytes(data) == 0);
    let digits = base58_digits(be_value(data)).map_values(|d: nat| base58_letter(d));
    assert(base58_encoding(data) =~= digits);
}

/// The number that a sequence of base-58 digits (most significant first) stands for.
pub open spec fn digits_value(ds: Seq<nat>) -> nat
    decreases ds.len(),
{
    if ds.len() == 0 {
        0
    } else {
        (digits_value(ds.drop_last()) * 58 + ds.last()) as nat
    }
}

/// The minimal big-endian bytes of a number; none for zero.
pub open spec fn be_bytes(n: nat) -> Seq<u8>
    decreases n,
{
    if n == 0 {
        Seq::empty()
    } else {
        be_bytes(n / 256).push((n % 256) as u8)
    }
}

/// The base-58 digits of `n` are below 58, give back `n`, and the leading one
/// is not zero.
pub proof fn lemma_base58_digits_facts(n: nat)
    ensures
        forall|i: int| 0 <= i < base58_digits(n).len() ==> #[trigger] base58_digits(n)[i] < 58,
        n == 0 <==> base58_digits(n).len() == 0,
        n > 0 ==> base58_digits(n)[0] > 0,
        digits_value(base58_digits(n)) == n,
    decreases n,
{
    if n > 0 {
        let m = n / 58;
        lemma_base58_digits_facts(m);
        let ds = base58_digits(n);
        assert(ds == base58_digits(m).push(n % 58));
        assert(ds.drop_last() =~= base58_digits(m));
        if m == 0 {
            assert(ds[0] == n % 58);
        } else {
            assert(ds[0] == base58_digits(m)[0]);
        }
    }
}

/// Distinct digits below 58 have distinct letters.
pub proof fn lemma_base58_letter_injective(x: nat, y: nat)
    requires
        x < 58,
        y < 58,
        base58_letter(x) == base58_letter(y),
    ensures
        x == y,
{
    assert(base58_letter(x) as int == base58_letter(y) as int);
}

/// Powers of 256 are positive.
pub proof fn lemma_pow256_positive(k: nat)
    ensures
        pow256(k) > 0,
    decreases k,
{
    if k > 0 {
        lemma_pow256_positive((k - 1) as nat);
    }
}

/// Leading zero bytes are zeros, the byte after them is not, and they do not
/// change the big-endian value.
pub proof fn lemma_leading_zero_bytes(d: Seq<u8>)
    ensures
        leading_zero_bytes(d) <= d.len(),
        forall|i: int| 0 <= i < leading_zero_bytes(d) ==> #[trigger] d[i] == 0,
        leading_zero_bytes(d) < d.len() ==> d[leading_zero_bytes(d) as int] != 0,
        be_value(d) == be_value(d.skip(leading_zero_bytes(d) as int)),
    decreases d.len(),
{
    if d.len() > 0 && d[0] == 0 {
        let t = d.drop_first();
        lemma_leading_zero_bytes(t);
        assert(d =~= seq![0u8] + t);
        lemma_be_value_prepend(0u8, t);
        assert(d.skip(leading_zero_bytes(d) as int) =~= t.skip(leading_zero_bytes(t) as int));
        assert forall|i: int| 0 <= i < leading_zero_bytes(d) implies #[trigger] d[i] == 0 by {
            if i > 0 {
                assert(d[i] == t[i - 1]);
            }
        }
    } else {
        assert(d.skip(0) =~= d);
    }
}

/// A byte sequence that is empty or opens with a non-zero byte is the
/// minimal big-endian form of its value.
pub proof fn lemma_be_bytes_of_value(d: Seq<u8>)
    requires
        d.len() > 0 ==> d[0] != 0,
    ensures
        be_bytes(be_value(d)) == d,
        d.len() > 0 ==> be_value(d) > 0,
    decreases d.len(),
{
    if d.len() > 0 {
        let t = d.drop_last();
        assert(d =~= seq![d[0]] + d.drop_first());
        lemma_be_value_prepend(d[0], d.drop_first());
        lemma_pow256_positive(d.drop_first().len());
        assert(d[0] * pow256(d.drop_first().len()) >= 1) by (nonlinear_arith)
            requires
                d[0] >= 1,
                pow256(d.drop_first().len()) >= 1,
        ;
        if t.len() > 0 {
            assert(t[0] == d[0]);
        }
        lemma_be_bytes_of_value(t);
        let n = be_value(d);
        assert(n == be_value(t) * 256 + d.last());
        assert(n / 256 == be_value(t));
        assert(n % 256 == d.last());
        assert(be_bytes(n) == be_bytes(n / 256).push((n % 256) as u8));
        assert(be_bytes(n) =~= t.push(d.last()));
        assert(t.push(d.last()) =~= d);
    } else {
        assert(d =~= Seq::<u8>::empty());
    }
}

/// Base58 encoding is injective: two byte sequences with the same Base58 text
/// are equal, so the text decodes back to exactly one byte sequence.
pub proof fn lemma_base58_encoding_injective(d1: Seq<u8>, d2: Seq<u8>)
    requires
        base58_encoding(d1) == base58_encoding(d2),
    ensures
        d1 == d2,
{
    let z1 = leading_zero_bytes(d1);
    let z2 = leading_zero_bytes(d2);
    let n1 = be_value(d1);
    let n2 = be_value(d2);
    let ds1 = base58_digits(n1);
    let ds2 = base58_digits(n2);
    let l1 = ds1.map_values(|d: nat| base58_letter(d));
    let l2 = ds2.map_values(|d: nat| base58_letter(d));
    let e = base58_encoding(d1);
    lemma_base58_digits_facts(n1);
    lemma_base58_digits_facts(n2);
    assert(e =~= Seq::new(z1, |i: int| '1') + l1);
    assert(e =~= Seq::new(z2, |i: int| '1') + l2);
    assert(base58_letter(0) == '1');
    if z1 < z2 {
        assert(e[z1 as int] == '1');
        assert(l1.len() > 0);
        assert(e[z1 as int] == base58_letter(ds1[0]));
        lemma_base58_letter_injective(ds1[0], 0);
        assert(false);
    }
    if z2 < z1 {
        assert(e[z2 as int] == '1');
        assert(l2.len() > 0);
        assert(e[z2 as int] == base58_letter(ds2[0]));
        lemma_base58_letter_injective(ds2[0], 0);
        assert(false);
    }
    assert(l1 =~= e.skip(z1 as int));
    assert(l2 =~= e.skip(z2 as int));
    assert(ds1.len() == ds2.len());
    assert forall|i: int| 0 <= i < ds1.len() implies ds1[i] == ds2[i] by {
        assert(l1[i] == l2[i]);
        lemma_base58_letter_injective(ds1[i], ds2[i]);
    }
    assert(ds1 =~= ds2);
    assert(n1 == n2);
    lemma_leading_zero_bytes(d1);
    lemma_leading_zero_bytes(d2);
    let r1 = d1.skip(z1 as int);
    let r2 = d2.skip(z2 as int);
    lemma_be_bytes_of_value(r1);
    lemma_be_bytes_of_value(r2);
    assert(r1 == r2);
    assert forall|i: int| 0 <= i < d1.len() implies d1[i] == d2[i] by {
        if i >= z1 {
            assert(d1[i] == r1[i - z1]);
            assert(d2[i] == r2[i - z1]);
        }
    }
    assert(d1 =~= d2);
}

} // verus!
