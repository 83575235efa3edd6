use vstd::prelude::*;
use crate::bytes::bytes_eq;

verus! {

/// The coarse category of unsoundness under which a case is filed.
#[derive(Clone, Copy, Debug, PartialEq, Eq, Structural)]
pub enum BugClass {
    SendSyncVariance,
    PanicSafety,
    UninitExposure,
    InconsistencyAmplification,
    Other,
}

/// The semantic classification of one raw execution.
#[derive(Clone, Copy, Debug, PartialEq, Eq, Structural)]
pub enum OutcomeKind {
    Completed,
    Panicked,
    Crashed,
    TimedOut,
    HungNoProgress,
    SanitizerFlagged,
    BuildFailed,
}

/// The name under which a bug class is written in case metadata.
pub open spec fn class_name(c: BugClass) -> Seq<u8> {
    match c {
        BugClass::SendSyncVariance => seq!['S' as u8, 'e' as u8, 'n' as u8, 'd' as u8, 'S' as u8, 'y' as u8, 'n' as u8, 'c' as u8, 'V' as u8, 'a' as u8, 'r' as u8, 'i' as u8, 'a' as u8, 'n' as u8, 'c' as u8, 'e' as u8],
        BugClass::PanicSafety => seq!['P' as u8, 'a' as u8, 'n' as u8, 'i' as u8, 'c' as u8, 'S' as u8, 'a' as u8, 'f' as u8, 'e' as u8, 't' as u8, 'y' as u8],
        BugClass::UninitExposure => seq!['U' as u8, 'n' as u8, 'i' as u8, 'n' as u8, 'i' as u8, 't' as u8, 'E' as u8, 'x' as u8, 'p' as u8, 'o' as u8, 's' as u8, 'u' as u8, 'r' as u8, 'e' as u8],
        BugClass::InconsistencyAmplification => seq!['I' as u8, 'n' as u8, 'c' as u8, 'o' as u8, 'n' as u8, 's' as u8, 'i' as u8, 's' as u8, 't' as u8, 'e' as u8, 'n' as u8, 'c' as u8, 'y' as u8, 'A' as u8, 'm' as u8, 'p' as u8, 'l' as u8, 'i' as u8, 'f' as u8, 'i' as u8, 'c' as u8, 'a' as u8, 't' as u8, 'i' as u8, 'o' as u8, 'n' as u8],
        BugClass::Other => seq!['O' as u8, 't' as u8, 'h' as u8, 'e' as u8, 'r' as u8],
    }
}

/// The class that a metadata name denotes: a recognized name gives its
/// class, any other name falls under `Other`.
pub open spec fn class_of_name(s: Seq<u8>) -> BugClass {
    if s == class_name(BugClass::SendSyncVariance) {
        BugClass::SendSyncVariance
    } else if s == class_name(BugClass::PanicSafety) {
        BugClass::PanicSafety
    } else if s == class_name(BugClass::UninitExposure) {
        BugClass::UninitExposure
    } else if s == class_name(BugClass::InconsistencyAmplification) {
        BugClass::InconsistencyAmplification
    } else {
        BugClass::Other
    }
}

impl BugClass {
    /// The metadata name of this class.
    pub fn name(&self) -> (r: Vec<u8>)
        ensures
            r@ == class_name(*self),
    {
        let r = match self {
            BugClass::SendSyncVariance => vec!['S' as u8, 'e' as u8, 'n' as u8, 'd' as u8, 'S' as u8, 'y' as u8, 'n' as u8, 'c' as u8, 'V' as u8, 'a' as u8, 'r' as u8, 'i' as u8, 'a' as u8, 'n' as u8, 'c' as u8, 'e' as u8],
            BugClass::PanicSafety => vec!['P' as u8, 'a' as u8, 'n' as u8, 'i' as u8, 'c' as u8, 'S' as u8, 'a' as u8, 'f' as u8, 'e' as u8, 't' as u8, 'y' as u8],
            BugClass::UninitExposure => vec!['U' as u8, 'n' as u8, 'i' as u8, 'n' as u8, 'i' as u8, 't' as u8, 'E' as u8, 'x' as u8, 'p' as u8, 'o' as u8, 's' as u8, 'u' as u8, 'r' as u8, 'e' as u8],
            BugClass::InconsistencyAmplification => vec!['I' as u8, 'n' as u8, 'c' as u8, 'o' as u8, 'n' as u8, 's' as u8, 'i' as u8, 's' as u8, 't' as u8, 'e' as u8, 'n' as u8, 'c' as u8, 'y' as u8, 'A' as u8, 'm' as u8, 'p' as u8, 'l' as u8, 'i' as u8, 'f' as u8, 'i' as u8, 'c' as u8, 'a' as u8, 't' as u8, 'i' as u8, 'o' as u8, 'n' as u8],
            BugClass::Other => vec!['O' as u8, 't' as u8, 'h' as u8, 'e' as u8, 'r' as u8],
        };
        assert(r@ =~= class_name(*self));
        r
    }

    /// Reads a bug class from its metadata name.
    pub fn from_name(s: &[u8]) -> (r: BugClass)
        ensures
            r == class_of_name(s@),
    {
        if bytes_eq(s, BugClass::SendSyncVariance.name().as_slice()) {
            BugClass::SendSyncVariance
        } else if bytes_eq(s, BugClass::PanicSafety.name().as_slice()) {
            BugClass::PanicSafety
        } else if bytes_eq(s, BugClass::UninitExposure.name().as_slice()) {
            BugClass::UninitExposure
        } else if bytes_eq(s, BugClass::InconsistencyAmplification.name().as_slice()) {
            BugClass::InconsistencyAmplification
        } else {
            BugClass::Other
        }
    }
}

} // verus!
