//! Easing functions, by name.
use vstd::prelude::*;

verus! {

/// An easing curve on the unit interval.
#[derive(Clone, Copy, PartialEq, Eq, Debug, Structural)]
pub enum Ease {
    Id,
    Smooth3,
    Smooth5,
    Smooth7,
    Smooth9,
    Sqrt,
    Squared,
    Cubed,
    UpArc,
    DownArc,
}

/// The code that constructs an ease.
pub open spec fn ease_code(e: Ease) -> Seq<char> {
    match e {
        Ease::Id => "Ease::Id"@,
        Ease::Smooth3 => "Ease::Smooth3"@,
        Ease::Smooth5 => "Ease::Smooth5"@,
        Ease::Smooth7 => "Ease::Smooth7"@,
        Ease::Smooth9 => "Ease::Smooth9"@,
        Ease::Sqrt => "Ease::Sqrt"@,
        Ease::Squared => "Ease::Squared"@,
        Ease::Cubed => "Ease::Cubed"@,
        Ease::UpArc => "Ease::UpArc"@,
        Ease::DownArc => "Ease::DownArc"@,
    }
}

impl Ease {
    /// Returns the code that constructs this ease.
    pub fn get_code(&self) -> (r: String)
        ensures
            r@ == ease_code(*self),
    {
        match self {
            Ease::Id => "Ease::Id".to_owned(),
            Ease::Smooth3 => "Ease::Smooth3".to_owned(),
            Ease::Smooth5 => "Ease::Smooth5".to_owned(),
            Ease::Smooth7 => "Ease::Smooth7".to_owned(),
            Ease::Smooth9 => "Ease::Smooth9".to_owned(),
            Ease::Sqrt => "Ease::Sqrt".to_owned(),
            Ease::Squared => "Ease::Squared".to_owned(),
            Ease::Cubed => "Ease::Cubed".to_owned(),
            Ease::UpArc => "Ease::UpArc".to_owned(),
            Ease::DownArc => "Ease::DownArc".to_owned(),
        }
    }
}

} // verus!
