//! Width constraint of the selector window, with its validation rule.

use vstd::prelude::*;

use crate::error::Error;
use crate::numeral::spec_decimal;

verus! {

/// Width of the selector window, overriding the theme's default.
#[derive(Debug)]
pub enum Width {
    /// No width specified: keep the theme's default.
    Unset,
    /// Width as a percentage of the screen; must be between 0 and 100.
    Percentage(usize),
    /// Width in pixels; must be greater than 100.
    Pixels(usize),
    /// Width estimated from a number of characters; any value is legal.
    Characters(usize),
}

impl Width {
    /// The validation rule: percentages stop at 100, pixel widths start
    /// above 100, everything else is unconstrained.
    pub open spec fn valid(self) -> bool {
        match self {
            Width::Percentage(x) => x <= 100,
            Width::Pixels(x) => x > 100,
            _ => true,
        }
    }

    /// The command-line tokens this width contributes to the child's
    /// invocation: nothing when unset, otherwise a `-width` flag whose
    /// value is the number itself for percentages and pixels, and the
    /// negated number for character counts.
    pub open spec fn arg_tokens(self) -> Seq<Seq<char>> {
        match self {
            Width::Unset => Seq::empty(),
            Width::Percentage(x) => seq!["-width"@, spec_decimal(x as int)],
            Width::Pixels(x) => seq!["-width"@, spec_decimal(x as int)],
            Width::Characters(x) => seq!["-width"@, "-"@ + spec_decimal(x as int)],
        }
    }

    /// Checks the width against its validation rule: exactly the valid
    /// widths pass, and an invalid one names the violated bound.
    pub fn check(&self) -> (r: Result<(), Error>)
        ensures
            r is Ok <==> self.valid(),
            !self.valid() ==> (r matches Err(e) && match e {
                Error::InvalidWidth(m) => {
                    &&& (self matches Width::Percentage(_) ==> m@ == "Percentage must be between 0 and 100"@)
                    &&& (self matches Width::Pixels(_) ==> m@ == "Pixels must be larger than 100"@)
                },
                _ => false,
            }),
    {
        match self {
            Width::Percentage(x) => {
                if *x > 100 {
                    Err(Error::InvalidWidth("Percentage must be between 0 and 100"))
                } else {
                    Ok(())
                }
            },
            Width::Pixels(x) => {
                if *x <= 100 {
                    Err(Error::InvalidWidth("Pixels must be larger than 100"))
                } else {
                    Ok(())
                }
            },
            _ => Ok(()),
        }
    }
}

} // verus!
