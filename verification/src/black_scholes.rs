//! Option kinds priced by the Black-Scholes formulas.
use vstd::prelude::*;

verus! {

/// Kind of a European option.
#[derive(Clone, Copy, Debug, PartialEq, Eq, Structural)]
pub enum OptionType {
    Call,
    Put,
}

} // verus!
