//! Decimal text of unsigned integers, and the quoted form of text.
use vstd::prelude::*;

verus! {

/// The decimal digits of `n`, most significant first, without leading zeros
/// (`"0"` for zero): what `to_string` writes for an unsigned integer.
pub open spec fn nat_text(n: nat) -> Seq<char>
    decreases n,
{
    if n < 10 {
        seq![(n + 48) as char]
    } else {
        nat_text(n / 10) + seq![((n % 10) + 48) as char]
    }
}

/// The one-character text of the digit `d < 10`.
fn digit_text(d: usize) -> (r: &'static str)
    requires
        d < 10,
    ensures
        r@ == seq![(d + 48) as char],
{
    let digits = "0123456789";
    proof {
        reveal_strlit("0123456789");
    }
    assert(digits.is_ascii());
    let r = digits.substring_ascii(d, d + 1);
    assert(r@ =~= seq![(d + 48) as char]);
    r
}

/// The decimal text of `n`.
pub fn u128_text(n: u128) -> (r: String)
    ensures
        r@ == nat_text(n as nat),
    decreases n,
{
    if n < 10 {
        String::from_str(digit_text(n as usize))
    } else {
        let mut s = u128_text(n / 10);
        s.append(digit_text((n % 10) as usize));
        s
    }
}

/// What `format!("{:?}", s)` writes for text `s`: the text in double quotes,
/// with quotes, backslashes and control characters escaped.
pub uninterp spec fn str_debug(s: Seq<char>) -> Seq<char>;

/// `<str as Debug>::fmt`. Claims only that the text is the named one.
#[verifier::external_body]
pub(crate) fn debug_quoted(s: &str) -> (r: String)
    ensures
        r@ == str_debug(s@),
{
    format!("{:?}", s)
}

} // verus!
