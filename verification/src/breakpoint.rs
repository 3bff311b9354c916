//! The five responsive sizes that an area can name.

use crate::error::{ErrorView, SpellError};
use crate::text::{Fragment, Text};
use vstd::prelude::*;

verus! {

/// A named width threshold.
#[derive(Debug, Clone, Copy, PartialEq, Eq, Structural)]
pub enum SpellBreakpoint {
    Small,
    Medium,
    Large,
    XLarge,
    XXLarge,
}

impl SpellBreakpoint {
    /// The keyword by which a spell names this size.
    pub open spec fn keyword(self) -> Seq<char> {
        match self {
            SpellBreakpoint::Small => "sm"@,
            SpellBreakpoint::Medium => "md"@,
            SpellBreakpoint::Large => "lg"@,
            SpellBreakpoint::XLarge => "xl"@,
            SpellBreakpoint::XXLarge => "xxl"@,
        }
    }

    /// Reads a size from its keyword. The match is exact: no other case, no
    /// surrounding blanks, no other spelling.
    pub fn from_str(bp: &str) -> (size: Result<SpellBreakpoint, SpellError>)
        ensures
            breakpoint_outcome(size) == breakpoint_of(bp@),
    {
        Self::parse(&Text::new(bp).fragment())
    }

    /// Reads a size from the fragment that is its keyword.
    pub(crate) fn parse(bp: &Fragment) -> (size: Result<SpellBreakpoint, SpellError>)
        ensures
            breakpoint_outcome(size) == breakpoint_of(bp@),
    {
        if bp.equals("sm") {
            Ok(SpellBreakpoint::Small)
        } else if bp.equals("md") {
            Ok(SpellBreakpoint::Medium)
        } else if bp.equals("lg") {
            Ok(SpellBreakpoint::Large)
        } else if bp.equals("xl") {
            Ok(SpellBreakpoint::XLarge)
        } else if bp.equals("xxl") {
            Ok(SpellBreakpoint::XXLarge)
        } else {
            Err(SpellError::UnknownBreakpoint(bp.to_string()))
        }
    }
}

impl std::str::FromStr for SpellBreakpoint {
    type Err = SpellError;

    fn from_str(bp: &str) -> (size: Result<SpellBreakpoint, SpellError>)
        ensures
            breakpoint_outcome(size) == breakpoint_of(bp@),
    {
        SpellBreakpoint::from_str(bp)
    }
}

/// The size that `bp` names, if it is one of the five keywords. Any other
/// text is an unknown breakpoint, and is handed back as such.
pub open spec fn breakpoint_of(bp: Seq<char>) -> Result<SpellBreakpoint, ErrorView> {
    if bp == SpellBreakpoint::Small.keyword() {
        Ok(SpellBreakpoint::Small)
    } else if bp == SpellBreakpoint::Medium.keyword() {
        Ok(SpellBreakpoint::Medium)
    } else if bp == SpellBreakpoint::Large.keyword() {
        Ok(SpellBreakpoint::Large)
    } else if bp == SpellBreakpoint::XLarge.keyword() {
        Ok(SpellBreakpoint::XLarge)
    } else if bp == SpellBreakpoint::XXLarge.keyword() {
        Ok(SpellBreakpoint::XXLarge)
    } else {
        Err(ErrorView::UnknownBreakpoint(bp))
    }
}

/// What reading a size gave, with the fault's text as a sequence of characters.
pub open spec fn breakpoint_outcome(read: Result<SpellBreakpoint, SpellError>) -> Result<
    SpellBreakpoint,
    ErrorView,
> {
    match read {
        Ok(size) => Ok(size),
        Err(fault) => Err(fault@),
    }
}

/// Every size is read back from its own keyword, and a text names a size only
/// if it is that size's keyword. A text that is the keyword of no size is an
/// unknown breakpoint, and there is no other fault.
pub proof fn lemma_breakpoint_keyword(size: SpellBreakpoint, bp: Seq<char>)
    ensures
        breakpoint_of(size.keyword()) == Ok::<SpellBreakpoint, ErrorView>(size),
        breakpoint_of(bp) == Ok::<SpellBreakpoint, ErrorView>(size) <==> bp == size.keyword(),
        breakpoint_of(bp) == Err::<SpellBreakpoint, ErrorView>(ErrorView::UnknownBreakpoint(bp))
            <==> forall|other: SpellBreakpoint| bp != #[trigger] other.keyword(),
        breakpoint_of(bp) is Err ==> breakpoint_of(bp) == Err::<SpellBreakpoint, ErrorView>(
            ErrorView::UnknownBreakpoint(bp),
        ),
{
    reveal_strlit("sm");
    reveal_strlit("md");
    reveal_strlit("lg");
    reveal_strlit("xl");
    reveal_strlit("xxl");
    // The keywords differ from one another in their length or their first letter.
    assert("sm"@.len() == 2 && "sm"@[0] == 's');
    assert("md"@.len() == 2 && "md"@[0] == 'm');
    assert("lg"@.len() == 2 && "lg"@[0] == 'l');
    assert("xl"@.len() == 2 && "xl"@[0] == 'x');
    assert("xxl"@.len() == 3);
}

} // verus!
