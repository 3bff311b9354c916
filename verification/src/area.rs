//! The scope that may open a spell: what stands before its first `__`.

use crate::breakpoint::{breakpoint_of, SpellBreakpoint};
use crate::error::{AreaFault, ErrorView, SpellError};
use crate::text::{find, lemma_find_either, Fragment, Text};
use vstd::prelude::*;

verus! {

/// Where a spell applies: at a named breakpoint, or under a media query.
#[derive(Debug, PartialEq, Eq)]
pub enum SpellArea {
    Breakpoint(SpellBreakpoint),
    /// The query as written, without its parentheses.
    MediaQuery(String),
}

/// An area with its text as a sequence of characters.
pub enum AreaView {
    Breakpoint(SpellBreakpoint),
    MediaQuery(Seq<char>),
}

impl AreaView {
    /// A media query holds no closing parenthesis: it ends at the first one.
    pub open spec fn wf(self) -> bool {
        self matches AreaView::MediaQuery(query) ==> !query.contains(')')
    }
}

impl View for SpellArea {
    type V = AreaView;

    open spec fn view(&self) -> AreaView {
        match self {
            SpellArea::Breakpoint(size) => AreaView::Breakpoint(*size),
            SpellArea::MediaQuery(query) => AreaView::MediaQuery(query@),
        }
    }
}

/// The area that `area` spells out. A text that opens with `(` is a media
/// query and runs to the first `)`; any other text has to be a breakpoint
/// keyword.
pub open spec fn area_of(area: Seq<char>) -> Result<AreaView, ErrorView> {
    if area.len() == 0 {
        Err(ErrorView::MalformedArea(AreaFault::Empty))
    } else if area[0] == '(' {
        match find(area, ')') {
            Some(close) => Ok(AreaView::MediaQuery(area.subrange(1, close))),
            None => Err(ErrorView::MalformedArea(AreaFault::UnclosedParen)),
        }
    } else {
        match breakpoint_of(area) {
            Ok(size) => Ok(AreaView::Breakpoint(size)),
            Err(fault) => Err(fault),
        }
    }
}

/// What reading an area gave, with the area's text as a sequence of characters.
pub open spec fn area_outcome(read: Result<SpellArea, SpellError>) -> Result<AreaView, ErrorView> {
    match read {
        Ok(area) => Ok(area@),
        Err(fault) => Err(fault@),
    }
}

impl SpellArea {
    /// Reads the area of a spell from the text before its `__`.
    pub fn from_str(area: &str) -> (read: Result<SpellArea, SpellError>)
        ensures
            area_outcome(read) == area_of(area@),
            read matches Ok(area) ==> area@.wf(),
    {
        Self::parse(&Text::new(area).fragment())
    }

    /// Reads the area from the fragment before the `__`.
    pub(crate) fn parse(area: &Fragment) -> (read: Result<SpellArea, SpellError>)
        ensures
            area_outcome(read) == area_of(area@),
            read matches Ok(area) ==> area@.wf(),
    {
        proof {
            lemma_area_wf(area@);
        }
        if area.len() == 0 {
            Err(SpellError::MalformedArea(AreaFault::Empty))
        } else if area.at(0) == '(' {
            match area.find(')') {
                Some(close) => {
                    Ok(SpellArea::MediaQuery(area.slice(1, close).to_string()))
                },
                None => Err(SpellError::MalformedArea(AreaFault::UnclosedParen)),
            }
        } else {
            match SpellBreakpoint::parse(area) {
                Ok(size) => Ok(SpellArea::Breakpoint(size)),
                Err(fault) => Err(fault),
            }
        }
    }
}

impl std::str::FromStr for SpellArea {
    type Err = SpellError;

    fn from_str(area: &str) -> (read: Result<SpellArea, SpellError>)
        ensures
            area_outcome(read) == area_of(area@),
            read matches Ok(area) ==> area@.wf(),
    {
        SpellArea::from_str(area)
    }
}

/// Every area that is read is well formed.
pub proof fn lemma_area_wf(area: Seq<char>)
    ensures
        area_of(area) matches Ok(read) ==> read.wf(),
{
    lemma_find_either(area, ')', ')');
}

} // verus!
