//! Small text helpers: appending characters and decimal rendering of
//! integers for messages.

use vstd::prelude::*;

verus! {

/// Appends one character to a string (`String::push`).
#[verifier::external_body]
pub(crate) fn push_char(s: &mut String, c: char)
    ensures
        final(s)@ == old(s)@.push(c),
{
    s.push(c);
}

/// The decimal digits of `v`, most significant first, without leading
/// zeros (`"0"` for zero).
pub open spec fn decimal(v: nat) -> Seq<char>
    decreases v,
{
    if v < 10 {
        seq![('0' as int + v) as char]
    } else {
        decimal(v / 10).push(('0' as int + v % 10) as char)
    }
}

/// Decimal rendering of `v`.
pub fn u64_to_decimal(v: u64) -> (s: String)
    ensures
        s@ == decimal(v as nat),
{
    // Collect the digits least significant first, then emit them reversed.
    let mut digits: Vec<char> = Vec::new();
    let mut rest: u64 = v;
    assert(decimal(v as nat) =~= decimal(v as nat) + digits@.reverse());
    loop
        invariant_except_break
            rest <= v,
            decimal(v as nat) == decimal(rest as nat) + digits@.reverse(),
        ensures
            decimal(v as nat) == digits@.reverse(),
        decreases rest,
    {
        let d = ((48 + rest % 10) as u8) as char;
        if rest < 10 {
            let ghost before = digits@;
            digits.push(d);
            assert(decimal(rest as nat) =~= seq![d]);
            assert(digits@.reverse() =~= seq![d] + before.reverse());
            break;
        }
        let ghost before = digits@;
        digits.push(d);
        assert(decimal(rest as nat) == decimal((rest / 10) as nat).push(d));
        assert(digits@.reverse() =~= seq![d] + before.reverse());
        assert(decimal(v as nat) =~= decimal((rest / 10) as nat) + digits@.reverse());
        rest = rest / 10;
    }
    let mut s = String::new();
    let mut i = digits.len();
    assert(s@ + digits@.take(i as int).reverse() =~= digits@.reverse());
    while i > 0
        invariant
            i <= digits@.len(),
            s@ + digits@.take(i as int).reverse() == digits@.reverse(),
        decreases i,
    {
        i = i - 1;
        let ghost before = s@;
        push_char(&mut s, digits[i]);
        assert(digits@.take(i + 1).reverse() =~= seq![digits@[i as int]] + digits@.take(
            i as int,
        ).reverse());
        assert(s@ + digits@.take(i as int).reverse() =~= before + digits@.take(i + 1).reverse());
    }
    assert(digits@.take(0).reverse() =~= Seq::<char>::empty());
    assert(s@ =~= s@ + Seq::<char>::empty());
    s
}

/// Whether two texts are equal.
pub fn text_eq(a: &str, b: &str) -> (r: bool)
    ensures
        r == (a@ == b@),
{
    let x = a.to_owned();
    let y = b.to_owned();
    x == y
}

} // verus!
