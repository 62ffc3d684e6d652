//! Distance metrics for the Worley basis.
use vstd::prelude::*;

verus! {

/// A norm for measuring distances to feature points.
#[derive(Clone, Copy, PartialEq, Eq, Debug, Structural)]
pub enum Distance {
    Norm1,
    Norm2,
    Norm4,
    Norm8,
    NormMax,
}

/// The code that constructs a metric.
pub open spec fn distance_code(d: Distance) -> Seq<char> {
    match d {
        Distance::Norm1 => "Distance::Norm1"@,
        Distance::Norm2 => "Distance::Norm2"@,
        Distance::Norm4 => "Distance::Norm4"@,
        Distance::Norm8 => "Distance::Norm8"@,
        Distance::NormMax => "Distance::NormMax"@,
    }
}

impl Distance {
    /// Returns the code that constructs this metric.
    pub fn get_code(&self) -> (r: String)
        ensures
            r@ == distance_code(*self),
    {
        match self {
            Distance::Norm1 => "Distance::Norm1".to_owned(),
            Distance::Norm2 => "Distance::Norm2".to_owned(),
            Distance::Norm4 => "Distance::Norm4".to_owned(),
            Distance::Norm8 => "Distance::Norm8".to_owned(),
            Distance::NormMax => "Distance::NormMax".to_owned(),
        }
    }
}

} // verus!
