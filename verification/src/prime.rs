//! Switching the PRIME GPU mode: which profiles exist, and what is asked of
//! optimus-manager or prime-select.
use vstd::prelude::*;
use crate::text::{chars_eq, chars_of, push_text};

verus! {

/// The tool that switches the mode.
#[derive(Debug, Clone, Copy, PartialEq, Eq, Structural)]
pub enum PrimeTool {
    OptimusManager,
    PrimeSelect,
}

/// A switch request: the tool, and the mode word it is given.
#[derive(Debug)]
pub struct PrimeSwitch {
    pub tool: PrimeTool,
    pub mode: String,
}

/// Why a switch cannot be asked for.
#[derive(Debug, Clone, Copy, PartialEq, Eq, Structural)]
pub enum PrimeError {
    /// Not "on-demand", "nvidia" or "intel".
    InvalidProfile,
}

pub open spec fn valid_prime_profile(p: Seq<char>) -> bool {
    p == "on-demand"@ || p == "nvidia"@ || p == "intel"@
}

/// optimus-manager's word for a profile.
pub open spec fn optimus_mode(p: Seq<char>) -> Seq<char> {
    if p == "on-demand"@ {
        "hybrid"@
    } else if p == "intel"@ {
        "integrated"@
    } else {
        p
    }
}

/// The switch for a PRIME profile: through optimus-manager (with its own
/// mode words) where it is installed, otherwise prime-select with the
/// profile itself; an unknown profile is refused.
pub fn prime_switch(profile: &str, optimus_manager_installed: bool) -> (r: Result<PrimeSwitch, PrimeError>)
    ensures
        !valid_prime_profile(profile@) ==> r == Err::<PrimeSwitch, PrimeError>(PrimeError::InvalidProfile),
        valid_prime_profile(profile@) ==> (r matches Ok(s) && (if optimus_manager_installed {
            s.tool == PrimeTool::OptimusManager && s.mode@ == optimus_mode(profile@)
        } else {
            s.tool == PrimeTool::PrimeSelect && s.mode@ == profile@
        })),
{
    let p = chars_of(profile);
    let on_demand = chars_eq(p.as_slice(), chars_of("on-demand").as_slice());
    let nvidia = chars_eq(p.as_slice(), chars_of("nvidia").as_slice());
    let intel = chars_eq(p.as_slice(), chars_of("intel").as_slice());
    if !(on_demand || nvidia || intel) {
        return Err(PrimeError::InvalidProfile);
    }
    let mut mode = String::new();
    if optimus_manager_installed {
        if on_demand {
            push_text(&mut mode, "hybrid");
        } else if intel {
            push_text(&mut mode, "integrated");
        } else {
            push_text(&mut mode, profile);
        }
        Ok(PrimeSwitch { tool: PrimeTool::OptimusManager, mode })
    } else {
        push_text(&mut mode, profile);
        Ok(PrimeSwitch { tool: PrimeTool::PrimeSelect, mode })
    }
}

} // verus!
