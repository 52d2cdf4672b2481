//! Fixed-width little-endian integers, the building block of the wire format.

use vstd::prelude::*;

verus! {

/// The `n` low base-256 digits of `v`, least significant first.
pub open spec fn le_digits(v: nat, n: nat) -> Seq<u8>
    decreases n,
{
    if n == 0 {
        Seq::empty()
    } else {
        seq![(v % 256) as u8] + le_digits(v / 256, (n - 1) as nat)
    }
}

/// The number whose base-256 digits, least significant first, are `s`.
pub open spec fn le_number(s: Seq<u8>) -> nat
    decreases s.len(),
{
    if s.len() == 0 {
        0
    } else {
        s[0] as nat + 256 * le_number(s.drop_first())
    }
}

/// The largest number that `n` base-256 digits can hold.
pub open spec fn le_max(n: nat) -> nat
    decreases n,
{
    if n == 0 {
        0
    } else {
        255 + 256 * le_max((n - 1) as nat)
    }
}

/// `le_digits` always yields exactly `n` digits.
pub proof fn lemma_le_digits_len(v: nat, n: nat)
    ensures
        le_digits(v, n).len() == n,
    decreases n,
{
    if n > 0 {
        lemma_le_digits_len(v / 256, (n - 1) as nat);
    }
}

/// A digit string never denotes more than its width allows.
pub proof fn lemma_le_number_bound(s: Seq<u8>)
    ensures
        le_number(s) <= le_max(s.len()),
    decreases s.len(),
{
    if s.len() > 0 {
        lemma_le_number_bound(s.drop_first());
    }
}

/// Writing a number that fits into `n` digits and reading it back returns it.
pub proof fn lemma_le_number_of_digits(v: nat, n: nat)
    requires
        v <= le_max(n),
    ensures
        le_number(le_digits(v, n)) == v,
    decreases n,
{
    if n > 0 {
        let rest = le_digits(v / 256, (n - 1) as nat);
        let all = le_digits(v, n);
        lemma_le_number_of_digits(v / 256, (n - 1) as nat);
        assert(all.drop_first() =~= rest);
        assert(all[0] == (v % 256) as u8);
    }
}

/// Reading a digit string and writing the number back returns the string.
pub proof fn lemma_le_digits_of_number(s: Seq<u8>)
    ensures
        le_digits(le_number(s), s.len()) == s,
    decreases s.len(),
{
    if s.len() > 0 {
        let v = le_number(s);
        lemma_le_digits_of_number(s.drop_first());
        assert(v / 256 == le_number(s.drop_first()));
        assert(v % 256 == s[0] as nat);
        assert(le_digits(v, s.len()) =~= s);
    } else {
        assert(le_digits(le_number(s), 0) =~= s);
    }
}

/// The widths the wire format uses, as plain numbers.
pub proof fn lemma_le_max_values()
    ensures
        le_max(2) == 0xffff,
        le_max(4) == 0xffff_ffff,
        le_max(8) == 0xffff_ffff_ffff_ffff,
        le_max(16) == 0xffff_ffff_ffff_ffff_ffff_ffff_ffff_ffff,
{
    reveal_with_fuel(le_max, 17);
}

/// `le_max` grows with the width.
pub proof fn lemma_le_max_monotone(a: nat, b: nat)
    requires
        a <= b,
    ensures
        le_max(a) <= le_max(b),
    decreases b,
{
    if a < b {
        lemma_le_max_monotone(a, (b - 1) as nat);
    }
}

/// Appends the `n` low digits of `v` to `out`, least significant first.
pub fn put_le(out: &mut Vec<u8>, v: u128, n: usize)
    requires
        n <= 16,
    ensures
        final(out)@ == old(out)@ + le_digits(v as nat, n as nat),
{
    let mut rest: u128 = v;
    let mut k: usize = 0;
    while k < n
        invariant
            k <= n,
            out@ + le_digits(rest as nat, (n - k) as nat) == old(out)@ + le_digits(
                v as nat,
                n as nat,
            ),
        decreases n - k,
    {
        let ghost before = out@;
        let digit: u8 = (rest % 256) as u8;
        out.push(digit);
        proof {
            let tail = le_digits((rest / 256) as nat, (n - k - 1) as nat);
            assert(le_digits(rest as nat, (n - k) as nat) == seq![digit] + tail);
            assert(out@ + tail =~= before + (seq![digit] + tail));
        }
        rest = rest / 256;
        k = k + 1;
    }
    proof {
        assert(out@ + le_digits(rest as nat, 0) =~= out@);
    }
}

/// Reads `n` digits of `bytes` from `start` on as one little-endian number.
pub fn read_le(bytes: &[u8], start: usize, n: usize) -> (value: u128)
    requires
        n <= 16,
        start + n <= bytes@.len(),
    ensures
        value as nat == le_number(bytes@.subrange(start as int, start + n)),
        value as nat <= le_max(n as nat),
{
    let total: usize = bytes.len();
    let mut acc: u128 = 0;
    let mut k: usize = n;
    proof {
        assert(bytes@.subrange(start + n, start + n).len() == 0);
    }
    while k > 0
        invariant
            k <= n,
            n <= 16,
            start + n <= bytes@.len(),
            bytes@.len() == total,
            acc as nat == le_number(bytes@.subrange(start + k, start + n)),
        decreases k,
    {
        proof {
            let shorter = bytes@.subrange(start + k, start + n);
            let longer = bytes@.subrange(start + k - 1, start + n);
            assert(longer.drop_first() =~= shorter);
            assert(longer[0] == bytes@[start + k - 1]);
            lemma_le_number_bound(shorter);
            lemma_le_max_monotone(shorter.len(), 15);
            lemma_le_max_values();
            reveal_with_fuel(le_max, 2);
            assert(le_max(16) == 255 + 256 * le_max(15));
        }
        k = k - 1;
        acc = acc * 256 + bytes[start + k] as u128;
    }
    proof {
        lemma_le_number_bound(bytes@.subrange(start as int, start + n));
    }
    acc
}

} // verus!
