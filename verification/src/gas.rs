//! `gas_aware_fixed_cost`: converts a gas cost into `fixed_cost` units.
use crate::decimal::{o_div, o_mul, ov, s_div, s_mul, some, Dec};
use crate::error::{detail_of, got, invalid_got, on_overflow, or_overflow, rv, ErrKind, SizingError};
use vstd::prelude::*;

verus! {

/// Wei per native token unit, `10^18`.
pub open spec fn wei_per_native_unit() -> (int, int) {
    (1000000000000000000, 0)
}

/// `gas_price_wei * gas_units_per_swap / 10^18 * native_price`, as the
/// decimal operations compute it.
pub open spec fn gas_cost(g: (int, int), u: (int, int), n: (int, int)) -> Option<(int, int)> {
    s_mul(s_div(s_mul(Some(g), Some(u)), Some(wei_per_native_unit())), Some(n))
}

/// Converts a gas cost (gas price in wei times gas units) into `fixed_cost`
/// units, given the native token's price in output-asset units. Rejects a
/// negative argument with `InvalidReserves`; zero arguments are allowed.
pub fn gas_aware_fixed_cost(
    gas_price_wei: Dec,
    gas_units_per_swap: Dec,
    native_token_price_in_output_units: Dec,
) -> (r: Result<Dec, SizingError>)
    ensures
        gas_price_wei@.0 < 0 || gas_units_per_swap@.0 < 0 || native_token_price_in_output_units@.0
            < 0 ==> (r matches Err(e) && e@ == ErrKind::InvalidReserves && detail_of(e) == if gas_price_wei@.0
            < 0 {
            got("gas_price_wei must be >= 0"@, gas_price_wei@)
        } else if gas_units_per_swap@.0 < 0 {
            got("gas_units_per_swap must be >= 0"@, gas_units_per_swap@)
        } else {
            got(
                "native_token_price_in_output_units must be >= 0"@,
                native_token_price_in_output_units@,
            )
        }),
        gas_price_wei@.0 >= 0 && gas_units_per_swap@.0 >= 0
            && native_token_price_in_output_units@.0 >= 0 ==> rv(r) == on_overflow(
            gas_cost(gas_price_wei@, gas_units_per_swap@, native_token_price_in_output_units@),
        ),
        // A zero gas price (or zero gas units) costs exactly nothing.
        gas_price_wei@.0 >= 0 && gas_units_per_swap@.0 >= 0
            && native_token_price_in_output_units@.0 >= 0 && (gas_price_wei@.0 == 0
            || gas_units_per_swap@.0 == 0) ==> (r matches Ok(c) && c@.0 == 0),
        // A free native token costs nothing whenever the cost is computed.
        native_token_price_in_output_units@.0 == 0 ==> (r matches Ok(c) ==> c@.0 == 0),
{
    if gas_price_wei.is_negative() {
        return Err(invalid_got("gas_price_wei must be >= 0", &gas_price_wei));
    }
    if gas_units_per_swap.is_negative() {
        return Err(invalid_got("gas_units_per_swap must be >= 0", &gas_units_per_swap));
    }
    if native_token_price_in_output_units.is_negative() {
        return Err(invalid_got("native_token_price_in_output_units must be >= 0", &native_token_price_in_output_units));
    }
    let wei_per_native_unit = Dec::lit(1000000000000000000, 0);
    let gas_cost_in_native_units = o_div(
        o_mul(some(&gas_price_wei), some(&gas_units_per_swap)),
        Some(wei_per_native_unit),
    );
    or_overflow(o_mul(gas_cost_in_native_units, some(&native_token_price_in_output_units)))
}

} // verus!
