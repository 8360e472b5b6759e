//! Positional notation: the digits of a number in a base, and the number that digits write;
//! bytes as the digits of base 256.

use vstd::prelude::*;

verus! {

/// `base` raised to the `n`-th power.
pub open spec fn power(base: nat, n: nat) -> nat
    decreases n,
{
    if n == 0 {
        1
    } else {
        base * power(base, (n - 1) as nat)
    }
}

/// The `n` lowest digits of `v` in base `base`, the most significant first.
pub open spec fn digits(v: nat, base: nat, n: nat) -> Seq<nat>
    decreases n,
{
    if n == 0 {
        seq![]
    } else {
        digits(v / base, base, (n - 1) as nat).push(v % base)
    }
}

/// The number that the digits `ds` write in base `base`, the most significant first.
pub open spec fn value(ds: Seq<nat>, base: nat) -> nat
    decreases ds.len(),
{
    if ds.len() == 0 {
        0
    } else {
        value(ds.drop_last(), base) * base + ds.last()
    }
}

/// Every entry of `ds` is a digit of base `base`.
pub open spec fn all_below(ds: Seq<nat>, base: nat) -> bool {
    forall|i: int| 0 <= i < ds.len() ==> #[trigger] ds[i] < base
}

/// A power of a positive base is positive.
pub proof fn lemma_power_positive(base: nat, n: nat)
    requires
        base > 0,
    ensures
        power(base, n) > 0,
    decreases n,
{
    if n > 0 {
        lemma_power_positive(base, (n - 1) as nat);
        assert(base * power(base, (n - 1) as nat) > 0) by (nonlinear_arith)
            requires
                base > 0,
                power(base, (n - 1) as nat) > 0,
        ;
    }
}

/// `digits` yields exactly `n` digits, each below the base.
pub proof fn lemma_digits_shape(v: nat, base: nat, n: nat)
    requires
        base > 0,
    ensures
        digits(v, base, n).len() == n,
        all_below(digits(v, base, n), base),
    decreases n,
{
    if n > 0 {
        lemma_digits_shape(v / base, base, (n - 1) as nat);
        assert(v % base < base) by (nonlinear_arith)
            requires
                base > 0,
        ;
    }
}

/// Reading back the `n` lowest digits of `v` gives `v` modulo `base` to the `n`.
pub proof fn lemma_value_of_digits(v: nat, base: nat, n: nat)
    requires
        base > 0,
    ensures
        value(digits(v, base, n), base) == v % power(base, n),
    decreases n,
{
    lemma_digits_shape(v, base, n);
    if n == 0 {
        assert(v % 1 == 0) by (nonlinear_arith);
    } else {
        let m = (n - 1) as nat;
        let ds = digits(v, base, n);
        assert(ds.drop_last() == digits(v / base, base, m));
        lemma_value_of_digits(v / base, base, m);
        lemma_power_positive(base, m);
        vstd::arithmetic::div_mod::lemma_mod_breakdown(v as int, base as int, power(base, m) as int);
        assert(base * ((v / base) % power(base, m)) == ((v / base) % power(base, m)) * base)
            by (nonlinear_arith);
    }
}

/// Digits below the base write a number below the base to the count of digits.
pub proof fn lemma_value_bound(ds: Seq<nat>, base: nat)
    requires
        base > 0,
        all_below(ds, base),
    ensures
        value(ds, base) < power(base, ds.len()),
    decreases ds.len(),
{
    if ds.len() > 0 {
        let init = ds.drop_last();
        lemma_value_bound(init, base);
        let p = power(base, init.len());
        let v = value(init, base);
        let d = ds.last();
        assert(v * base + d < base * p) by (nonlinear_arith)
            requires
                v < p,
                d < base,
        ;
    }
}

/// Digits below the base are given back by `digits` applied to the number that they write.
pub proof fn lemma_digits_of_value(ds: Seq<nat>, base: nat)
    requires
        base > 0,
        all_below(ds, base),
    ensures
        digits(value(ds, base), base, ds.len()) == ds,
    decreases ds.len(),
{
    if ds.len() > 0 {
        let init = ds.drop_last();
        let v = value(init, base);
        let d = ds.last();
        assert(all_below(init, base));
        lemma_digits_of_value(init, base);
        vstd::arithmetic::div_mod::lemma_fundamental_div_mod_converse(
            (v * base + d) as int,
            base as int,
            v as int,
            d as int,
        );
        assert(digits(value(ds, base), base, ds.len()) =~= ds);
    }
}

/// The number that the bytes `bs` write, the most significant first.
pub open spec fn be_value(bs: Seq<u8>) -> nat {
    value(bs.map_values(|b: u8| b as nat), 256)
}

/// The `n` lowest bytes of `v`, the most significant first.
pub open spec fn be_bytes(v: nat, n: nat) -> Seq<u8> {
    digits(v, 256, n).map_values(|d: nat| d as u8)
}

/// The bytes of the number that bytes write are those bytes, and the number is below
/// 256 to the count of bytes.
pub proof fn lemma_bytes_of_value(bs: Seq<u8>)
    ensures
        be_value(bs) < power(256, bs.len()),
        be_bytes(be_value(bs), bs.len()) == bs,
{
    let ns = bs.map_values(|b: u8| b as nat);
    assert(all_below(ns, 256));
    lemma_value_bound(ns, 256);
    lemma_digits_of_value(ns, 256);
    assert(be_bytes(be_value(bs), bs.len()) =~= bs);
}

} // verus!
