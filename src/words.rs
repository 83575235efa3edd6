use vstd::prelude::*;

verus! {

/// The fixed words of the case metadata format.
#[derive(Clone, Copy, Debug, PartialEq, Eq, Structural)]
pub enum Word {
    Fence,
    OpenTag,
    NoPoc,
    Target,
    Crate,
    Version,
    IndexedVersion,
    Report,
    IssueUrl,
    IssueDate,
    RustsecId,
    RustsecUrl,
    UniqueBugs,
    Bugs,
    Analyzer,
    BugClass,
    BugCount,
    Locations,
    Test,
    Toolchain,
    Analyzers,
    BugClasses,
}

/// How a word is spelled, in ASCII.
pub open spec fn spelling(w: Word) -> Seq<u8> {
    match w {
        Word::Fence => seq!['`' as u8, '`' as u8, '`' as u8],
        Word::OpenTag => seq!['`' as u8, '`' as u8, '`' as u8, 'r' as u8, 'u' as u8, 'd' as u8, 'r' as u8, 'a' as u8, '-' as u8, 'p' as u8, 'o' as u8, 'c' as u8],
        Word::NoPoc => seq!['r' as u8, 'e' as u8, 'p' as u8, 'o' as u8, 'r' as u8, 't' as u8, 'e' as u8, 'd' as u8, ' ' as u8, 'w' as u8, 'i' as u8, 't' as u8, 'h' as u8, 'o' as u8, 'u' as u8, 't' as u8, ' ' as u8, 'P' as u8, 'o' as u8, 'C' as u8],
        Word::Target => seq!['t' as u8, 'a' as u8, 'r' as u8, 'g' as u8, 'e' as u8, 't' as u8],
        Word::Crate => seq!['c' as u8, 'r' as u8, 'a' as u8, 't' as u8, 'e' as u8],
        Word::Version => seq!['v' as u8, 'e' as u8, 'r' as u8, 's' as u8, 'i' as u8, 'o' as u8, 'n' as u8],
        Word::IndexedVersion => seq!['i' as u8, 'n' as u8, 'd' as u8, 'e' as u8, 'x' as u8, 'e' as u8, 'd' as u8, '_' as u8, 'v' as u8, 'e' as u8, 'r' as u8, 's' as u8, 'i' as u8, 'o' as u8, 'n' as u8],
        Word::Report => seq!['r' as u8, 'e' as u8, 'p' as u8, 'o' as u8, 'r' as u8, 't' as u8],
        Word::IssueUrl => seq!['i' as u8, 's' as u8, 's' as u8, 'u' as u8, 'e' as u8, '_' as u8, 'u' as u8, 'r' as u8, 'l' as u8],
        Word::IssueDate => seq!['i' as u8, 's' as u8, 's' as u8, 'u' as u8, 'e' as u8, '_' as u8, 'd' as u8, 'a' as u8, 't' as u8, 'e' as u8],
        Word::RustsecId => seq!['r' as u8, 'u' as u8, 's' as u8, 't' as u8, 's' as u8, 'e' as u8, 'c' as u8, '_' as u8, 'i' as u8, 'd' as u8],
        Word::RustsecUrl => seq!['r' as u8, 'u' as u8, 's' as u8, 't' as u8, 's' as u8, 'e' as u8, 'c' as u8, '_' as u8, 'u' as u8, 'r' as u8, 'l' as u8],
        Word::UniqueBugs => seq!['u' as u8, 'n' as u8, 'i' as u8, 'q' as u8, 'u' as u8, 'e' as u8, '_' as u8, 'b' as u8, 'u' as u8, 'g' as u8, 's' as u8],
        Word::Bugs => seq!['b' as u8, 'u' as u8, 'g' as u8, 's' as u8],
        Word::Analyzer => seq!['a' as u8, 'n' as u8, 'a' as u8, 'l' as u8, 'y' as u8, 'z' as u8, 'e' as u8, 'r' as u8],
        Word::BugClass => seq!['b' as u8, 'u' as u8, 'g' as u8, '_' as u8, 'c' as u8, 'l' as u8, 'a' as u8, 's' as u8, 's' as u8],
        Word::BugCount => seq!['b' as u8, 'u' as u8, 'g' as u8, '_' as u8, 'c' as u8, 'o' as u8, 'u' as u8, 'n' as u8, 't' as u8],
        Word::Locations => seq!['r' as u8, 'u' as u8, 'd' as u8, 'r' as u8, 'a' as u8, '_' as u8, 'r' as u8, 'e' as u8, 'p' as u8, 'o' as u8, 'r' as u8, 't' as u8, '_' as u8, 'l' as u8, 'o' as u8, 'c' as u8, 'a' as u8, 't' as u8, 'i' as u8, 'o' as u8, 'n' as u8, 's' as u8],
        Word::Test => seq!['t' as u8, 'e' as u8, 's' as u8, 't' as u8],
        Word::Toolchain => seq!['c' as u8, 'a' as u8, 'r' as u8, 'g' as u8, 'o' as u8, '_' as u8, 't' as u8, 'o' as u8, 'o' as u8, 'l' as u8, 'c' as u8, 'h' as u8, 'a' as u8, 'i' as u8, 'n' as u8],
        Word::Analyzers => seq!['a' as u8, 'n' as u8, 'a' as u8, 'l' as u8, 'y' as u8, 'z' as u8, 'e' as u8, 'r' as u8, 's' as u8],
        Word::BugClasses => seq!['b' as u8, 'u' as u8, 'g' as u8, '_' as u8, 'c' as u8, 'l' as u8, 'a' as u8, 's' as u8, 's' as u8, 'e' as u8, 's' as u8],
    }
}

/// The bytes of a word.
pub fn spell(w: Word) -> (r: Vec<u8>)
    ensures
        r@ == spelling(w),
{
    let r = match w {
        Word::Fence => vec!['`' as u8, '`' as u8, '`' as u8],
        Word::OpenTag => vec!['`' as u8, '`' as u8, '`' as u8, 'r' as u8, 'u' as u8, 'd' as u8, 'r' as u8, 'a' as u8, '-' as u8, 'p' as u8, 'o' as u8, 'c' as u8],
        Word::NoPoc => vec!['r' as u8, 'e' as u8, 'p' as u8, 'o' as u8, 'r' as u8, 't' as u8, 'e' as u8, 'd' as u8, ' ' as u8, 'w' as u8, 'i' as u8, 't' as u8, 'h' as u8, 'o' as u8, 'u' as u8, 't' as u8, ' ' as u8, 'P' as u8, 'o' as u8, 'C' as u8],
        Word::Target => vec!['t' as u8, 'a' as u8, 'r' as u8, 'g' as u8, 'e' as u8, 't' as u8],
        Word::Crate => vec!['c' as u8, 'r' as u8, 'a' as u8, 't' as u8, 'e' as u8],
        Word::Version => vec!['v' as u8, 'e' as u8, 'r' as u8, 's' as u8, 'i' as u8, 'o' as u8, 'n' as u8],
        Word::IndexedVersion => vec!['i' as u8, 'n' as u8, 'd' as u8, 'e' as u8, 'x' as u8, 'e' as u8, 'd' as u8, '_' as u8, 'v' as u8, 'e' as u8, 'r' as u8, 's' as u8, 'i' as u8, 'o' as u8, 'n' as u8],
        Word::Report => vec!['r' as u8, 'e' as u8, 'p' as u8, 'o' as u8, 'r' as u8, 't' as u8],
        Word::IssueUrl => vec!['i' as u8, 's' as u8, 's' as u8, 'u' as u8, 'e' as u8, '_' as u8, 'u' as u8, 'r' as u8, 'l' as u8],
        Word::IssueDate => vec!['i' as u8, 's' as u8, 's' as u8, 'u' as u8, 'e' as u8, '_' as u8, 'd' as u8, 'a' as u8, 't' as u8, 'e' as u8],
        Word::RustsecId => vec!['r' as u8, 'u' as u8, 's' as u8, 't' as u8, 's' as u8, 'e' as u8, 'c' as u8, '_' as u8, 'i' as u8, 'd' as u8],
        Word::RustsecUrl => vec!['r' as u8, 'u' as u8, 's' as u8, 't' as u8, 's' as u8, 'e' as u8, 'c' as u8, '_' as u8, 'u' as u8, 'r' as u8, 'l' as u8],
        Word::UniqueBugs => vec!['u' as u8, 'n' as u8, 'i' as u8, 'q' as u8, 'u' as u8, 'e' as u8, '_' as u8, 'b' as u8, 'u' as u8, 'g' as u8, 's' as u8],
        Word::Bugs => vec!['b' as u8, 'u' as u8, 'g' as u8, 's' as u8],
        Word::Analyzer => vec!['a' as u8, 'n' as u8, 'a' as u8, 'l' as u8, 'y' as u8, 'z' as u8, 'e' as u8, 'r' as u8],
        Word::BugClass => vec!['b' as u8, 'u' as u8, 'g' as u8, '_' as u8, 'c' as u8, 'l' as u8, 'a' as u8, 's' as u8, 's' as u8],
        Word::BugCount => vec!['b' as u8, 'u' as u8, 'g' as u8, '_' as u8, 'c' as u8, 'o' as u8, 'u' as u8, 'n' as u8, 't' as u8],
        Word::Locations => vec!['r' as u8, 'u' as u8, 'd' as u8, 'r' as u8, 'a' as u8, '_' as u8, 'r' as u8, 'e' as u8, 'p' as u8, 'o' as u8, 'r' as u8, 't' as u8, '_' as u8, 'l' as u8, 'o' as u8, 'c' as u8, 'a' as u8, 't' as u8, 'i' as u8, 'o' as u8, 'n' as u8, 's' as u8],
        Word::Test => vec!['t' as u8, 'e' as u8, 's' as u8, 't' as u8],
        Word::Toolchain => vec!['c' as u8, 'a' as u8, 'r' as u8, 'g' as u8, 'o' as u8, '_' as u8, 't' as u8, 'o' as u8, 'o' as u8, 'l' as u8, 'c' as u8, 'h' as u8, 'a' as u8, 'i' as u8, 'n' as u8],
        Word::Analyzers => vec!['a' as u8, 'n' as u8, 'a' as u8, 'l' as u8, 'y' as u8, 'z' as u8, 'e' as u8, 'r' as u8, 's' as u8],
        Word::BugClasses => vec!['b' as u8, 'u' as u8, 'g' as u8, '_' as u8, 'c' as u8, 'l' as u8, 'a' as u8, 's' as u8, 's' as u8, 'e' as u8, 's' as u8],
    };
    assert(r@ =~= spelling(w));
    r
}

} // verus!
