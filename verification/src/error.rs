//! `SizingError`, the single error type of every fallible operation.
use crate::decimal::{decimal_to_string, Dec};
use crate::text::{debug_quoted, nat_text, str_debug, u128_text};
use vstd::prelude::*;

verus! {

/// The single error type returned by every fallible operation.
#[derive(Debug, Clone, PartialEq)]
pub enum SizingError {
    /// A reserve, fee, or reference price was zero, negative, or otherwise
    /// outside the domain the curve requires (also: an arithmetic step
    /// overflowed the decimal range).
    InvalidReserves {
        /// Human-readable detail on which argument was invalid and why.
        detail: String,
    },
    /// An iterative solver ran out of iterations before converging.
    DidNotConverge {
        /// Number of iterations actually attempted before giving up.
        iterations_attempted: u32,
    },
    /// The capacity limit or the fixed cost excludes every profitable size.
    NoProfitableSize,
    /// The pool is not mispriced in the profitable direction.
    NoArbitrageOpportunity,
}

/// What a `SizingError` is, without its human-readable detail.
#[derive(Debug, Clone, Copy, PartialEq, Eq)]
pub enum ErrKind {
    /// `SizingError::InvalidReserves`.
    InvalidReserves,
    /// `SizingError::DidNotConverge` with its iteration count.
    DidNotConverge(u32),
    /// `SizingError::NoProfitableSize`.
    NoProfitableSize,
    /// `SizingError::NoArbitrageOpportunity`.
    NoArbitrageOpportunity,
}

impl View for SizingError {
    type V = ErrKind;

    open spec fn view(&self) -> ErrKind {
        match self {
            SizingError::InvalidReserves { .. } => ErrKind::InvalidReserves,
            SizingError::DidNotConverge { iterations_attempted } => ErrKind::DidNotConverge(
                *iterations_attempted,
            ),
            SizingError::NoProfitableSize => ErrKind::NoProfitableSize,
            SizingError::NoArbitrageOpportunity => ErrKind::NoArbitrageOpportunity,
        }
    }
}

/// The view of a decimal-valued result: the decimal's `(mantissa, scale)`
/// or the error's kind.
pub open spec fn rv(r: Result<Dec, SizingError>) -> Result<(int, int), ErrKind> {
    match r {
        Ok(d) => Ok(d@),
        Err(e) => Err(e@),
    }
}

/// The human-readable detail an error carries (empty for the variants
/// without one).
pub open spec fn detail_of(e: SizingError) -> Seq<char> {
    match e {
        SizingError::InvalidReserves { detail } => detail@,
        _ => Seq::empty(),
    }
}

/// An `InvalidReserves` error carrying `detail`.
pub fn invalid(detail: &str) -> (e: SizingError)
    ensures
        e@ == ErrKind::InvalidReserves,
        detail_of(e) == detail@,
{
    SizingError::InvalidReserves { detail: String::from_str(detail) }
}

/// An `InvalidReserves` error carrying the text `detail`.
pub fn invalid_text(detail: String) -> (e: SizingError)
    ensures
        e@ == ErrKind::InvalidReserves,
        detail_of(e) == detail@,
{
    SizingError::InvalidReserves { detail }
}

/// `prefix` followed by the decimal's text.
pub fn with_dec(prefix: &str, v: &Dec) -> (r: String)
    ensures
        r@ == prefix@ + decimal_to_string(v@),
{
    let mut out = String::from_str(prefix);
    let t = v.to_text();
    out.append(t.as_str());
    out
}

/// `prefix` followed by the count's digits.
pub fn with_count(prefix: &str, n: usize) -> (r: String)
    ensures
        r@ == prefix@ + nat_text(n as nat),
{
    let mut out = String::from_str(prefix);
    let t = u128_text(n as u128);
    out.append(t.as_str());
    out
}

/// `text` followed by `suffix`.
pub fn then_str(text: String, suffix: &str) -> (r: String)
    ensures
        r@ == text@ + suffix@,
{
    let mut out = text;
    out.append(suffix);
    out
}

/// `text` followed by the decimal's text.
pub fn then_dec(text: String, v: &Dec) -> (r: String)
    ensures
        r@ == text@ + decimal_to_string(v@),
{
    let mut out = text;
    let t = v.to_text();
    out.append(t.as_str());
    out
}

/// `text` followed by the count's digits.
pub fn then_count(text: String, n: usize) -> (r: String)
    ensures
        r@ == text@ + nat_text(n as nat),
{
    let mut out = text;
    let t = u128_text(n as u128);
    out.append(t.as_str());
    out
}

/// `prefix`, then `", got "`, then the decimal's text: the detail of a
/// refused argument.
pub open spec fn got(prefix: Seq<char>, v: (int, int)) -> Seq<char> {
    prefix + ", got "@ + decimal_to_string(v)
}

/// An `InvalidReserves` error whose detail is `got(prefix, v)`.
pub fn invalid_got(prefix: &str, v: &Dec) -> (e: SizingError)
    ensures
        e@ == ErrKind::InvalidReserves,
        detail_of(e) == got(prefix@, v@),
{
    let t = then_dec(then_str(String::from_str(prefix), ", got "), v);
    invalid_text(t)
}

/// The detail of the error reported when a decimal step overflows or is
/// undefined.
pub open spec fn overflow_detail() -> Seq<char> {
    "arithmetic overflow or undefined operation in decimal computation"@
}

/// The error reported when a decimal step overflows or is undefined.
pub fn overflow() -> (e: SizingError)
    ensures
        e@ == ErrKind::InvalidReserves,
        detail_of(e) == overflow_detail(),
{
    invalid("arithmetic overflow or undefined operation in decimal computation")
}

/// `Ok(d)` for `Some(d)`, the overflow error for `None`.
pub fn or_overflow(o: Option<Dec>) -> (r: Result<Dec, SizingError>)
    ensures
        rv(r) == on_overflow(crate::decimal::ov(o)),
{
    match o {
        Some(d) => Ok(d),
        None => Err(overflow()),
    }
}

/// `Ok(v)` for `Some(v)`, an `InvalidReserves` kind for `None`.
pub open spec fn on_overflow(o: Option<(int, int)>) -> Result<(int, int), ErrKind> {
    match o {
        Some(v) => Ok(v),
        None => Err(ErrKind::InvalidReserves),
    }
}

/// The text `{:?}` gives for an error: the variant's name and, for a
/// variant with a field, the field in braces.
pub open spec fn error_text_spec(e: SizingError) -> Seq<char> {
    match e {
        SizingError::InvalidReserves { detail } => "InvalidReserves { detail: "@ + str_debug(detail@)
            + " }"@,
        SizingError::DidNotConverge { iterations_attempted } => "DidNotConverge { iterations_attempted: "@
            + nat_text(iterations_attempted as nat) + " }"@,
        SizingError::NoProfitableSize => "NoProfitableSize"@,
        SizingError::NoArbitrageOpportunity => "NoArbitrageOpportunity"@,
    }
}

/// The error's text, as `{:?}` writes it.
pub fn error_text(e: &SizingError) -> (r: String)
    ensures
        r@ == error_text_spec(*e),
{
    match e {
        SizingError::InvalidReserves { detail } => {
            let mut out = String::from_str("InvalidReserves { detail: ");
            let q = debug_quoted(detail.as_str());
            out.append(q.as_str());
            out.append(" }");
            out
        },
        SizingError::DidNotConverge { iterations_attempted } => {
            let mut out = String::from_str("DidNotConverge { iterations_attempted: ");
            let n = u128_text(*iterations_attempted as u128);
            out.append(n.as_str());
            out.append(" }");
            out
        },
        SizingError::NoProfitableSize => String::from_str("NoProfitableSize"),
        SizingError::NoArbitrageOpportunity => String::from_str("NoArbitrageOpportunity"),
    }
}

/// The message a Python caller receives for an error.
pub open spec fn py_error_spec(e: SizingError) -> Seq<char> {
    match e {
        SizingError::InvalidReserves { detail } => "invalid reserves: "@ + detail@,
        SizingError::DidNotConverge { iterations_attempted } => "solver failed to converge after "@
            + nat_text(iterations_attempted as nat) + " iterations"@,
        SizingError::NoProfitableSize => "NoProfitableSize: trade cannot clear fixed cost threshold"@,
        SizingError::NoArbitrageOpportunity => "NoArbitrageOpportunity: pool price is not mispriced relative to reference price"@,
    }
}

/// The message a Python caller receives for an error.
pub fn py_error_text(e: &SizingError) -> (r: String)
    ensures
        r@ == py_error_spec(*e),
{
    match e {
        SizingError::InvalidReserves { detail } => {
            let mut out = String::from_str("invalid reserves: ");
            out.append(detail.as_str());
            out
        },
        SizingError::DidNotConverge { iterations_attempted } => {
            let mut out = String::from_str("solver failed to converge after ");
            let n = u128_text(*iterations_attempted as u128);
            out.append(n.as_str());
            out.append(" iterations");
            out
        },
        SizingError::NoProfitableSize => String::from_str(
            "NoProfitableSize: trade cannot clear fixed cost threshold",
        ),
        SizingError::NoArbitrageOpportunity => String::from_str(
            "NoArbitrageOpportunity: pool price is not mispriced relative to reference price",
        ),
    }
}

/// The error text a JavaScript caller receives: the variant's name, and
/// for invalid reserves the detail after a colon.
pub open spec fn wasm_error_spec(e: SizingError) -> Seq<char> {
    match e {
        SizingError::InvalidReserves { detail } => "InvalidReserves: "@ + detail@,
        SizingError::DidNotConverge { .. } => "DidNotConverge"@,
        SizingError::NoProfitableSize => "NoProfitableSize"@,
        SizingError::NoArbitrageOpportunity => "NoArbitrageOpportunity"@,
    }
}

/// The error text a JavaScript caller receives.
pub fn wasm_error_text(e: &SizingError) -> (r: String)
    ensures
        r@ == wasm_error_spec(*e),
{
    match e {
        SizingError::InvalidReserves { detail } => {
            let mut out = String::from_str("InvalidReserves: ");
            out.append(detail.as_str());
            out
        },
        SizingError::DidNotConverge { .. } => String::from_str("DidNotConverge"),
        SizingError::NoProfitableSize => String::from_str("NoProfitableSize"),
        SizingError::NoArbitrageOpportunity => String::from_str("NoArbitrageOpportunity"),
    }
}

} // verus!
