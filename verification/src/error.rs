//! The ways in which a text fails to be a spell.

use vstd::prelude::*;

verus! {

/// What is wrong with the text before the `__` of a spell.
#[derive(Debug, Clone, Copy, PartialEq, Eq, Structural)]
pub enum AreaFault {
    /// Nothing stands before the `__`.
    Empty,
    /// The text opens with `(` and holds no `)`.
    UnclosedParen,
}

/// Why a text is not a spell. The first fault from the left is the one
/// reported, and it says what was looked for in vain or what was found instead.
#[derive(Debug, PartialEq, Eq)]
pub enum SpellError {
    /// The area before `__` is empty, or a media query that is never closed.
    MalformedArea(AreaFault),
    /// The area is neither a media query nor one of the breakpoint keywords;
    /// the text that was found in the keyword's place.
    UnknownBreakpoint(String),
    /// Nothing follows the area.
    UnterminatedSpell,
    /// A focus is opened with `{` and never closed.
    UnterminatedFocus,
    /// No `=` follows where the component begins.
    MissingAssignment,
    /// A list of variables without a single entry.
    EmptyTarget,
}

/// A fault with its text as a sequence of characters.
pub enum ErrorView {
    MalformedArea(AreaFault),
    UnknownBreakpoint(Seq<char>),
    UnterminatedSpell,
    UnterminatedFocus,
    MissingAssignment,
    EmptyTarget,
}

impl View for SpellError {
    type V = ErrorView;

    open spec fn view(&self) -> ErrorView {
        match self {
            SpellError::MalformedArea(fault) => ErrorView::MalformedArea(*fault),
            SpellError::UnknownBreakpoint(found) => ErrorView::UnknownBreakpoint(found@),
            SpellError::UnterminatedSpell => ErrorView::UnterminatedSpell,
            SpellError::UnterminatedFocus => ErrorView::UnterminatedFocus,
            SpellError::MissingAssignment => ErrorView::MissingAssignment,
            SpellError::EmptyTarget => ErrorView::EmptyTarget,
        }
    }
}

impl ErrorView {
    /// The delimiter for want of which the text fails, where it fails for want
    /// of one.
    pub open spec fn missing_delimiter(self) -> Option<char> {
        match self {
            ErrorView::MalformedArea(AreaFault::UnclosedParen) => Some(')'),
            ErrorView::UnterminatedFocus => Some('}'),
            ErrorView::MissingAssignment => Some('='),
            _ => None,
        }
    }

    /// The wording of each fault.
    pub open spec fn wording(self) -> Seq<char> {
        match self {
            ErrorView::MalformedArea(AreaFault::Empty) => "spell not long enough"@,
            ErrorView::MalformedArea(AreaFault::UnclosedParen) => "missing ')' in spell area"@,
            ErrorView::UnknownBreakpoint(_) => "invalid breakpoint for area"@,
            ErrorView::UnterminatedSpell => "spell ends too early while looking for focus"@,
            ErrorView::UnterminatedFocus => "spell ends without closing focus"@,
            ErrorView::MissingAssignment => "expected '=' after component but could not find one"@,
            ErrorView::EmptyTarget => "empty target!"@,
        }
    }
}

impl SpellError {
    /// The delimiter for want of which the text fails, where it fails for want
    /// of one: `)` for a media query, `}` for a focus, `=` for the assignment.
    pub fn missing_delimiter(&self) -> (missing: Option<char>)
        ensures
            missing == self@.missing_delimiter(),
    {
        match self {
            SpellError::MalformedArea(AreaFault::UnclosedParen) => Some(')'),
            SpellError::UnterminatedFocus => Some('}'),
            SpellError::MissingAssignment => Some('='),
            _ => None,
        }
    }

    /// A sentence for the reader of a diagnostic.
    pub fn message(&self) -> (message: &'static str)
        ensures
            message@ == self@.wording(),
    {
        match self {
            SpellError::MalformedArea(AreaFault::Empty) => "spell not long enough",
            SpellError::MalformedArea(AreaFault::UnclosedParen) => "missing ')' in spell area",
            SpellError::UnknownBreakpoint(_) => "invalid breakpoint for area",
            SpellError::UnterminatedSpell => "spell ends too early while looking for focus",
            SpellError::UnterminatedFocus => "spell ends without closing focus",
            SpellError::MissingAssignment => "expected '=' after component but could not find one",
            SpellError::EmptyTarget => "empty target!",
        }
    }
}

} // verus!
