//! Exact decimal digits of `m * 2^e` for any 64-bit `m` and exponent `e`.

use vstd::prelude::*;
use crate::decimal::{dec_digits, digit, digit_char, lemma_pow10_pos, pow10, pow2};

verus! {

/// The number written by the decimal digits `ds`, most significant first.
pub open spec fn be_val(ds: Seq<u8>) -> nat
    decreases ds.len(),
{
    if ds.len() == 0 {
        0
    } else {
        be_val(ds.drop_last()) * 10 + ds.last() as nat
    }
}

/// Every entry of `ds` is a decimal digit.
pub open spec fn all_digits(ds: Seq<u8>) -> bool {
    forall|i: int| 0 <= i < ds.len() ==> #[trigger] ds[i] < 10
}

/// `ds` is non-empty and has no leading zero.
pub open spec fn normalized(ds: Seq<u8>) -> bool {
    ds.len() >= 1 && ds[0] >= 1
}

/// The characters of the digits `ds`.
pub open spec fn digit_chars(ds: Seq<u8>) -> Seq<char> {
    ds.map_values(|d: u8| digit_char(d as nat))
}

proof fn lemma_be_val_single(d: u8)
    ensures
        be_val(seq![d]) == d as nat,
{
    assert(seq![d].drop_last() =~= Seq::<u8>::empty());
    assert(be_val(Seq::<u8>::empty()) == 0);
}

proof fn lemma_be_val_front(d: u8, r: Seq<u8>)
    ensures
        be_val(seq![d] + r) == d as nat * pow10(r.len()) + be_val(r),
    decreases r.len(),
{
    if r.len() == 0 {
        assert((seq![d] + r).drop_last() =~= Seq::<u8>::empty());
        assert(seq![d] + r =~= seq![d]);
        lemma_be_val_single(d);
        assert(be_val(r) == 0);
        assert(pow10(0) == 1);
    } else {
        let s = seq![d] + r;
        assert(s.drop_last() =~= seq![d] + r.drop_last());
        assert(s.last() == r.last());
        lemma_be_val_front(d, r.drop_last());
        let p = pow10(r.drop_last().len());
        assert(pow10(r.len()) == 10 * p);
        let a = be_val(r.drop_last());
        assert(be_val(s) == be_val(s.drop_last()) * 10 + s.last() as nat);
        assert(be_val(s.drop_last()) == d as nat * p + a);
        assert(be_val(r) == a * 10 + r.last() as nat);
        assert((d as nat * p + a) * 10 + r.last() as nat == d as nat * (10 * p) + (a * 10
            + r.last() as nat)) by (nonlinear_arith);
    }
}

proof fn lemma_be_val_skip(ds: Seq<u8>, j: int)
    requires
        0 <= j < ds.len(),
    ensures
        be_val(ds.skip(j)) == ds[j] as nat * pow10((ds.len() - j - 1) as nat) + be_val(
            ds.skip(j + 1),
        ),
{
    assert(ds.skip(j) =~= seq![ds[j]] + ds.skip(j + 1));
    lemma_be_val_front(ds[j], ds.skip(j + 1));
}

proof fn lemma_be_val_lower(ds: Seq<u8>)
    requires
        ds.len() >= 1,
    ensures
        be_val(ds) >= ds[0] as nat * pow10((ds.len() - 1) as nat),
{
    assert(ds =~= seq![ds[0]] + ds.skip(1));
    lemma_be_val_front(ds[0], ds.skip(1));
}

proof fn lemma_digit_chars(ds: Seq<u8>)
    requires
        normalized(ds),
        all_digits(ds),
    ensures
        dec_digits(be_val(ds)) == digit_chars(ds),
    decreases ds.len(),
{
    if ds.len() == 1 {
        assert(ds =~= seq![ds[0]]);
        lemma_be_val_single(ds[0]);
        assert(digit_chars(ds) =~= seq![digit_char(ds[0] as nat)]);
    } else {
        let p = ds.drop_last();
        assert(p[0] == ds[0]);
        assert(all_digits(p));
        lemma_digit_chars(p);
        lemma_be_val_lower(p);
        lemma_pow10_pos((p.len() - 1) as nat);
        assert(be_val(p) >= 1) by (nonlinear_arith)
            requires
                be_val(p) >= p[0] as nat * pow10((p.len() - 1) as nat),
                p[0] >= 1,
                pow10((p.len() - 1) as nat) >= 1,
        ;
        let n = be_val(ds);
        assert(n == be_val(p) * 10 + ds.last() as nat);
        assert(ds.last() < 10);
        assert(n / 10 == be_val(p));
        assert(n % 10 == ds.last() as nat);
        assert(digit_chars(ds) =~= digit_chars(p).push(digit_char(ds.last() as nat)));
    }
}

/// The digits of `n`, most significant first.
fn digits_of(n: u64) -> (ds: Vec<u8>)
    ensures
        be_val(ds@) == n,
        all_digits(ds@),
        normalized(ds@) || (n == 0 && ds@ == seq![0u8]),
    decreases n,
{
    if n < 10 {
        let ds = vec![n as u8];
        assert(ds@ =~= seq![n as u8]);
        proof { lemma_be_val_single(n as u8); }
        ds
    } else {
        let mut ds = digits_of(n / 10);
        let ghost prev = ds@;
        ds.push((n % 10) as u8);
        assert(ds@.drop_last() =~= prev);
        assert(ds@[0] == prev[0]);
        ds
    }
}

/// Doubles the number that `ds` writes.
fn double_digits(ds: &mut Vec<u8>)
    requires
        all_digits(old(ds)@),
        normalized(old(ds)@),
    ensures
        all_digits(final(ds)@),
        normalized(final(ds)@),
        be_val(final(ds)@) == 2 * be_val(old(ds)@),
{
    let ghost orig = ds@;
    let len = ds.len();
    let mut carry: u8 = 0;
    let mut j = len;
    proof {
        assert(ds@.skip(len as int) =~= Seq::<u8>::empty());
        assert(orig.skip(len as int) =~= Seq::<u8>::empty());
    }
    while j > 0
        invariant
            ds@.len() == len == orig.len(),
            len >= 1,
            j <= len,
            carry <= 1,
            all_digits(ds@),
            all_digits(orig),
            orig[0] >= 1,
            forall|i: int| 0 <= i < j ==> ds@[i] == orig[i],
            be_val(ds@.skip(j as int)) + carry as nat * pow10((len - j) as nat) == 2 * be_val(
                orig.skip(j as int),
            ),
            j < len ==> 10 * carry + ds@[j as int] >= 2 * orig[j as int],
        decreases j,
    {
        j = j - 1;
        let t = 2 * ds[j] + carry;
        let ghost c_in = carry as nat;
        let ghost before = ds@;
        ds.set(j, t % 10);
        carry = t / 10;
        proof {
            assert(ds@.skip(j + 1) =~= before.skip(j + 1));
            lemma_be_val_skip(ds@, j as int);
            lemma_be_val_skip(orig, j as int);
            let p = pow10((len - j - 1) as nat);
            assert(pow10((len - j) as nat) == 10 * p);
            let bn = be_val(ds@.skip(j + 1));
            let bo = be_val(orig.skip(j + 1));
            assert(bn + c_in * p == 2 * bo);
            assert(ds@[j as int] as nat * p + bn + carry as nat * (10 * p) == 2 * (orig[j as int]
                as nat * p + bo)) by (nonlinear_arith)
                requires
                    bn + c_in * p == 2 * bo,
                    ds@[j as int] as nat + 10 * carry as nat == 2 * orig[j as int] as nat + c_in,
            ;
        }
    }
    proof {
        assert(ds@.skip(0) =~= ds@);
        assert(orig.skip(0) =~= orig);
    }
    if carry > 0 {
        let ghost low = ds@;
        ds.insert(0, carry);
        proof {
            assert(ds@ =~= seq![carry] + low);
            lemma_be_val_front(carry, low);
        }
    }
}

/// Appends the decimal representation of `m * 2^e`.
pub fn push_big_dec(m: u64, e: u32, out: &mut Vec<char>)
    ensures
        final(out)@ == old(out)@ + dec_digits(m as nat * pow2(e as nat)),
{
    if m == 0 {
        out.push('0');
        assert(old(out)@ + dec_digits(0) =~= old(out)@.push('0'));
        return;
    }
    let mut ds = digits_of(m);
    let mut i: u32 = 0;
    proof {
        assert(pow2(0) == 1);
        assert(m as nat * 1 == m as nat);
    }
    while i < e
        invariant
            i <= e,
            all_digits(ds@),
            normalized(ds@),
            be_val(ds@) == m as nat * pow2(i as nat),
        decreases e - i,
    {
        double_digits(&mut ds);
        proof {
            assert(pow2((i + 1) as nat) == 2 * pow2(i as nat));
            assert(2 * (m as nat * pow2(i as nat)) == m as nat * (2 * pow2(i as nat)))
                by (nonlinear_arith);
        }
        i = i + 1;
    }
    proof {
        lemma_digit_chars(ds@);
    }
    let ghost start = out@;
    for k in 0..ds.len()
        invariant
            out@ == start + digit_chars(ds@).take(k as int),
            all_digits(ds@),
    {
        out.push(digit(ds[k]));
        assert(digit_chars(ds@).take(k + 1) =~= digit_chars(ds@).take(k as int).push(
            digit_char(ds@[k as int] as nat),
        ));
    }
    assert(digit_chars(ds@).take(ds.len() as int) =~= digit_chars(ds@));
}

} // verus!
