//! The two error families of the library: construction-time configuration
//! faults, which are fatal and never surface mid-simulation, and
//! degenerate tessellation inputs, which are recoverable (the caller keeps
//! the previous partition and tries again next tick).

use vstd::prelude::*;

verus! {

/// A construction-time rejection: the simulation is never built from a
/// configuration that could not run.
#[derive(Clone, Copy, PartialEq, Eq, Structural, Debug)]
pub enum ConfigurationError {
    /// The population would be empty.
    NoAgents,
    /// The bounding rectangle would have a non-positive side.
    NonPositiveBounds,
    /// The history window would hold nothing.
    NonPositiveCapacity,
}

/// A site set from which no valid partition of the bounding box exists.
#[derive(Clone, Copy, PartialEq, Eq, Structural, Debug)]
pub enum DegenerateInputError {
    /// No sites at all.
    Empty,
    /// Two sites at exactly the same point.
    Coincident,
    /// Every site on one line (any set of fewer than three distinct
    /// sites is collinear in this sense).
    Collinear,
}

impl ConfigurationError {
    /// A human-readable name for the rejection.
    pub fn describe(&self) -> (r: String)
        ensures
            r@.len() > 0,
    {
        let s = match self {
            ConfigurationError::NoAgents => "configuration rejected: zero agents",
            ConfigurationError::NonPositiveBounds => "configuration rejected: non-positive bounds",
            ConfigurationError::NonPositiveCapacity => (
            "configuration rejected: non-positive history capacity"),
        };
        let r = s.to_string();
        proof {
            assert(r@.len() > 0) by {
                reveal_strlit("configuration rejected: zero agents");
                reveal_strlit("configuration rejected: non-positive bounds");
                reveal_strlit("configuration rejected: non-positive history capacity");
            }
        }
        r
    }
}

impl DegenerateInputError {
    /// A human-readable name for the degeneracy.
    pub fn describe(&self) -> (r: String)
        ensures
            r@.len() > 0,
    {
        let s = match self {
            DegenerateInputError::Empty => "degenerate sites: empty",
            DegenerateInputError::Coincident => "degenerate sites: coincident pair",
            DegenerateInputError::Collinear => "degenerate sites: all collinear",
        };
        let r = s.to_string();
        proof {
            assert(r@.len() > 0) by {
                reveal_strlit("degenerate sites: empty");
                reveal_strlit("degenerate sites: coincident pair");
                reveal_strlit("degenerate sites: all collinear");
            }
        }
        r
    }
}

} // verus!
