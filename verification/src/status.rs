//! Gemini response status codes.
//!
//! A response header starts with a two-digit status code. The tens digit
//! selects the category; any code whose tens digit is outside `1..=6` is a
//! protocol violation.

use vstd::prelude::*;

verus! {

/// Error returned when a numeric code has no status category.
#[derive(Debug, Clone, Copy, PartialEq, Eq, Structural)]
pub struct InvalidStatus;

/// A response status: the category given by the tens digit of the code,
/// carrying the full two-digit code it was derived from.
#[derive(Debug, Copy, Clone, PartialEq, Eq, PartialOrd, Structural)]
pub enum Status {
    Input(u8),
    Success(u8),
    Redirect(u8),
    TempFail(u8),
    PermFail(u8),
    CertRequired(u8),
}

/// The status a code in `10..=69` classifies to: variant by tens digit,
/// payload the code itself.
pub open spec fn spec_classify(s: u8) -> Status
    recommends
        10 <= s < 70,
{
    if s < 20 {
        Status::Input(s)
    } else if s < 30 {
        Status::Success(s)
    } else if s < 40 {
        Status::Redirect(s)
    } else if s < 50 {
        Status::TempFail(s)
    } else if s < 60 {
        Status::PermFail(s)
    } else {
        Status::CertRequired(s)
    }
}

impl Status {
    /// The numeric code this status carries.
    pub open spec fn code(self) -> u8 {
        match self {
            Status::Input(c) => c,
            Status::Success(c) => c,
            Status::Redirect(c) => c,
            Status::TempFail(c) => c,
            Status::PermFail(c) => c,
            Status::CertRequired(c) => c,
        }
    }

    /// A status is well formed when its code lies in the range of its variant.
    pub open spec fn wf(self) -> bool {
        match self {
            Status::Input(c) => 10 <= c < 20,
            Status::Success(c) => 20 <= c < 30,
            Status::Redirect(c) => 30 <= c < 40,
            Status::TempFail(c) => 40 <= c < 50,
            Status::PermFail(c) => 50 <= c < 60,
            Status::CertRequired(c) => 60 <= c < 70,
        }
    }

    /// Classify a numeric code. Every code in `10..=69` succeeds with the
    /// variant given by its tens digit; every other code is rejected.
    pub fn try_from(s: u8) -> (r: Result<Status, InvalidStatus>)
        ensures
            r == (if 10 <= s < 70 {
                Result::<Status, InvalidStatus>::Ok(spec_classify(s))
            } else {
                Result::<Status, InvalidStatus>::Err(InvalidStatus)
            }),
            r matches Ok(st) ==> st.wf() && st.code() == s,
    {
        match s / 10 {
            1 => Ok(Status::Input(s)),
            2 => Ok(Status::Success(s)),
            3 => Ok(Status::Redirect(s)),
            4 => Ok(Status::TempFail(s)),
            5 => Ok(Status::PermFail(s)),
            6 => Ok(Status::CertRequired(s)),
            _ => Err(InvalidStatus),
        }
    }
}

/// For every code in `10..=69`, classification succeeds and the variant
/// matches the tens digit; for every code below 10 or at 70 and above it
/// fails.
pub proof fn lemma_status_classification(s: u8)
    ensures
        10 <= s < 70 ==> spec_classify(s).wf() && spec_classify(s).code() == s,
        10 <= s < 70 ==> (spec_classify(s) matches Status::Input(_) <==> s / 10 == 1),
        10 <= s < 70 ==> (spec_classify(s) matches Status::Success(_) <==> s / 10 == 2),
        10 <= s < 70 ==> (spec_classify(s) matches Status::Redirect(_) <==> s / 10 == 3),
        10 <= s < 70 ==> (spec_classify(s) matches Status::TempFail(_) <==> s / 10 == 4),
        10 <= s < 70 ==> (spec_classify(s) matches Status::PermFail(_) <==> s / 10 == 5),
        10 <= s < 70 ==> (spec_classify(s) matches Status::CertRequired(_) <==> s / 10 == 6),
{
}

} // verus!
