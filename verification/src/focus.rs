//! What may stand between the area and the component of a spell: a focus in
//! braces, or a list of effects closed by a colon. A spell has one of the two
//! or neither, never both.

use crate::error::{ErrorView, SpellError};
use crate::text::{
    find, find_either, lemma_find_either, lemma_join_split, lemma_split_chars, split,
    Fragment, Text,
};
use vstd::prelude::*;

verus! {

/// The selector or the states under which a spell applies.
#[derive(Debug, PartialEq, Eq)]
pub enum FocusOrEffect {
    /// A selector, as written between `{` and the first `}`.
    Focus(String),
    /// The names of states, as written before the `:`, split at each `,`.
    Effect(Vec<String>),
}

/// A focus or an effect with its texts as sequences of characters.
pub enum FocusOrEffectView {
    Focus(Seq<char>),
    Effect(Seq<Seq<char>>),
}

impl FocusOrEffectView {
    /// A focus holds no closing brace: it ends at the first one. An effect
    /// names at least one state, and no name holds a comma, a colon or an
    /// equals sign: the names end at the first colon, which stands before any
    /// equals sign, and are parted at the commas.
    pub open spec fn wf(self) -> bool {
        match self {
            FocusOrEffectView::Focus(selector) => !selector.contains('}'),
            FocusOrEffectView::Effect(states) => {
                &&& states.len() >= 1
                &&& forall|k: int|
                    0 <= k < states.len() ==> {
                        &&& !(#[trigger] states[k]).contains(',')
                        &&& !states[k].contains(':')
                        &&& !states[k].contains('=')
                    }
            },
        }
    }
}

impl View for FocusOrEffect {
    type V = FocusOrEffectView;

    open spec fn view(&self) -> FocusOrEffectView {
        match self {
            FocusOrEffect::Focus(selector) => FocusOrEffectView::Focus(selector@),
            FocusOrEffect::Effect(states) => FocusOrEffectView::Effect(states.deep_view()),
        }
    }
}

/// The focus or effect that `rest` opens with, and the position in `rest` at
/// which the component begins.
///
/// A text that opens with `{` has a focus, which runs to the first `}`, and the
/// component follows that brace; whatever the braces hold, and whatever comes
/// after them, is never read as an effect. Any other text has an effect if a
/// `:` stands before its first `=`: the names before the colon, and the
/// component follows the colon. Without such a colon it has neither, and the
/// component begins where `rest` does.
pub open spec fn focus_effect_of(rest: Seq<char>) -> Result<
    (Option<FocusOrEffectView>, int),
    ErrorView,
> {
    if rest.len() == 0 {
        Err(ErrorView::UnterminatedSpell)
    } else if rest[0] == '{' {
        match find(rest, '}') {
            Some(close) => Ok((Some(FocusOrEffectView::Focus(rest.subrange(1, close))), close + 1)),
            None => Err(ErrorView::UnterminatedFocus),
        }
    } else {
        match find_either(rest, ':', '=') {
            Some(stop) => if rest[stop] == ':' {
                Ok((Some(FocusOrEffectView::Effect(split(rest.take(stop), ','))), stop + 1))
            } else {
                Ok((None, 0))
            },
            None => Ok((None, 0)),
        }
    }
}

/// What reading a focus or effect gave, with texts as sequences of characters
/// and the position as an integer.
pub open spec fn focus_effect_outcome(
    read: Result<(Option<FocusOrEffect>, usize), SpellError>,
) -> Result<(Option<FocusOrEffectView>, int), ErrorView> {
    match read {
        Ok((Some(found), next)) => Ok((Some(found@), next as int)),
        Ok((None, next)) => Ok((None, next as int)),
        Err(fault) => Err(fault@),
    }
}

impl FocusOrEffect {
    /// Reads the focus or the effect at the start of `rest`, the text of a
    /// spell after its area. Returns what it found together with the position
    /// in `rest`, counted in characters, at which the component begins.
    pub fn from_prefix(rest: &str) -> (read: Result<(Option<FocusOrEffect>, usize), SpellError>)
        ensures
            focus_effect_outcome(read) == focus_effect_of(rest@),
            read matches Ok((_, next)) ==> next <= rest@.len(),
            read matches Ok((Some(found), _)) ==> found@.wf(),
    {
        Self::parse(&Text::new(rest).fragment())
    }

    /// Reads the focus or the effect at the start of the fragment after the area.
    pub(crate) fn parse(rest: &Fragment) -> (read: Result<
        (Option<FocusOrEffect>, usize),
        SpellError,
    >)
        ensures
            focus_effect_outcome(read) == focus_effect_of(rest@),
            read matches Ok((_, next)) ==> next <= rest@.len(),
            read matches Ok((Some(found), _)) ==> found@.wf(),
    {
        proof {
            lemma_focus_effect_wf(rest@);
        }
        if rest.len() == 0 {
            Err(SpellError::UnterminatedSpell)
        } else if rest.at(0) == '{' {
            match rest.find('}') {
                Some(close) => {
                    let selector = rest.slice(1, close).to_string();
                    Ok((Some(FocusOrEffect::Focus(selector)), close + 1))
                },
                None => Err(SpellError::UnterminatedFocus),
            }
        } else {
            match rest.find_either(':', '=') {
                Some(stop) => if rest.at(stop) == ':' {
                    let states = rest.slice(0, stop).split(',');
                    Ok((Some(FocusOrEffect::Effect(states)), stop + 1))
                } else {
                    Ok((None, 0))
                },
                None => Ok((None, 0)),
            }
        }
    }
}

/// A text that opens with a brace has a focus and never an effect, whatever
/// the braces hold and whatever follows them: colons and commas inside or
/// after the braces change nothing. It fails only where no brace closes it.
pub proof fn lemma_braces_are_a_focus(rest: Seq<char>)
    requires
        rest.len() > 0,
        rest[0] == '{',
    ensures
        match focus_effect_of(rest) {
            Ok((found, next)) => {
                &&& find(rest, '}') matches Some(close)
                &&& found == Some(FocusOrEffectView::Focus(rest.subrange(1, close)))
                &&& next == close + 1
            },
            Err(fault) => fault == ErrorView::UnterminatedFocus && !rest.contains('}'),
        },
{
    lemma_find_either(rest, '}', '}');
}

/// Every focus or effect that is read is well formed, and the component
/// begins inside the text or at its end.
pub proof fn lemma_focus_effect_wf(rest: Seq<char>)
    ensures
        focus_effect_of(rest) matches Ok((found, next)) ==> {
            &&& 0 <= next <= rest.len()
            &&& found matches Some(read) ==> read.wf()
        },
{
    if rest.len() > 0 {
        if rest[0] == '{' {
            lemma_find_either(rest, '}', '}');
        } else {
            lemma_find_either(rest, ':', '=');
            if let Some(stop) = find_either(rest, ':', '=') {
                let names = rest.take(stop);
                let states = split(names, ',');
                lemma_join_split(names, ',');
                lemma_split_chars(names, ',');
                assert forall|k: int| 0 <= k < states.len() implies {
                    &&& !(#[trigger] states[k]).contains(':')
                    &&& !states[k].contains('=')
                } by {
                    assert forall|i: int| 0 <= i < states[k].len() implies states[k][i] != ':'
                        && states[k][i] != '=' by {
                        let c = states[k][i];
                        assert(names.contains(c));
                        let j = choose|j: int| 0 <= j < names.len() && names[j] == c;
                        assert(rest[j] == c);
                    }
                }
            }
        }
    }
}

} // verus!
