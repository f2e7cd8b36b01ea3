//! Decimal rendering of numbers as ASCII bytes.

use vstd::prelude::*;

verus! {

/// The ASCII byte of a single decimal digit.
pub open spec fn digit_byte(d: nat) -> u8 {
    (48 + d) as u8
}

/// Whether a byte is an ASCII decimal digit.
pub open spec fn is_digit(b: u8) -> bool {
    48 <= b <= 57
}

/// The last `width` decimal digits of `n`, most significant first, padded
/// with zeros on the left.
pub open spec fn fixed_width(n: nat, width: nat) -> Seq<u8>
    decreases width,
{
    if width == 0 {
        Seq::empty()
    } else {
        fixed_width(n / 10, (width - 1) as nat).push(digit_byte(n % 10))
    }
}

/// The decimal digits of `n` without leading zeros.
pub open spec fn decimal(n: nat) -> Seq<u8>
    decreases n,
{
    if n < 10 {
        seq![digit_byte(n)]
    } else {
        decimal(n / 10).push(digit_byte(n % 10))
    }
}

/// A fixed-width rendering has exactly the width asked for and holds digits
/// only.
pub proof fn lemma_fixed_width_shape(n: nat, width: nat)
    ensures
        fixed_width(n, width).len() == width,
        forall|i: int| 0 <= i < width ==> is_digit(#[trigger] fixed_width(n, width)[i]),
    decreases width,
{
    if width > 0 {
        lemma_fixed_width_shape(n / 10, (width - 1) as nat);
    }
}

/// A decimal rendering is never empty and holds digits only.
pub proof fn lemma_decimal_shape(n: nat)
    ensures
        decimal(n).len() >= 1,
        forall|i: int| 0 <= i < decimal(n).len() ==> is_digit(#[trigger] decimal(n)[i]),
    decreases n,
{
    if n >= 10 {
        lemma_decimal_shape(n / 10);
    }
}

/// Two numbers with the same decimal rendering are the same number.
pub proof fn lemma_decimal_injective(a: nat, b: nat)
    requires
        decimal(a) == decimal(b),
    ensures
        a == b,
    decreases a,
{
    lemma_decimal_shape(a / 10);
    lemma_decimal_shape(b / 10);
    if a < 10 && b < 10 {
        assert(decimal(a)[0] == digit_byte(a));
        assert(decimal(b)[0] == digit_byte(b));
    } else if a >= 10 && b >= 10 {
        let da = decimal(a / 10);
        let db = decimal(b / 10);
        assert(da =~= decimal(a).drop_last());
        assert(db =~= decimal(b).drop_last());
        lemma_decimal_injective(a / 10, b / 10);
        assert(decimal(a).last() == digit_byte(a % 10));
        assert(decimal(b).last() == digit_byte(b % 10));
    } else {
        assert(decimal(a).len() != decimal(b).len());
    }
}

/// Renders the last `width` decimal digits of `n`, zero-padded.
pub fn render_fixed(n: u32, width: usize) -> (out: Vec<u8>)
    ensures
        out@ == fixed_width(n as nat, width as nat),
    decreases width,
{
    if width == 0 {
        Vec::new()
    } else {
        let mut out = render_fixed(n / 10, width - 1);
        let d: u8 = (n % 10) as u8;
        out.push(48u8 + d);
        out
    }
}

/// Renders `n` in decimal without leading zeros.
pub fn render_decimal(n: u32) -> (out: Vec<u8>)
    ensures
        out@ == decimal(n as nat),
    decreases n,
{
    let d: u8 = (n % 10) as u8;
    if n < 10 {
        let mut out = Vec::new();
        out.push(48u8 + d);
        out
    } else {
        let mut out = render_decimal(n / 10);
        out.push(48u8 + d);
        out
    }
}

} // verus!
