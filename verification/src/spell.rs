//! The spell as a whole: `[area__][{focus} | effect,effect:]component=target`.

use crate::area::{area_of, lemma_area_wf, AreaView, SpellArea};
use crate::breakpoint::{lemma_breakpoint_keyword, SpellBreakpoint};
use crate::error::{ErrorView, SpellError};
use crate::focus::{focus_effect_of, lemma_focus_effect_wf, FocusOrEffect, FocusOrEffectView};
use crate::target::{lemma_target_wf, target_of, SpellTarget, TargetView};
use crate::text::{
    find, find_pair, lemma_find_either, lemma_find_pair, lemma_find_pair_is, pair_at,
    Fragment, Text,
};
use vstd::prelude::*;

verus! {

/// One styling rule: where it applies, to what, and what it sets.
#[derive(Debug, PartialEq, Eq)]
pub struct Spell {
    /// The breakpoint or media query under which the rule applies.
    pub area: Option<SpellArea>,
    /// The selector or the states to which the rule is narrowed.
    pub focus_effect: Option<FocusOrEffect>,
    /// The name of the property that is set.
    pub component: String,
    /// What the property is set to.
    pub target: SpellTarget,
}

/// A spell with its texts as sequences of characters.
pub struct SpellView {
    pub area: Option<AreaView>,
    pub focus_effect: Option<FocusOrEffectView>,
    pub component: Seq<char>,
    pub target: TargetView,
}

impl SpellView {
    /// The component holds no equals sign: it ends at the first one. Area,
    /// focus or effect, and target are well formed each in its own way.
    pub open spec fn wf(self) -> bool {
        &&& !self.component.contains('=')
        &&& self.area matches Some(area) ==> area.wf()
        &&& self.focus_effect matches Some(focus_effect) ==> focus_effect.wf()
        &&& self.target.wf()
    }
}

impl View for Spell {
    type V = SpellView;

    open spec fn view(&self) -> SpellView {
        SpellView {
            area: match self.area {
                Some(area) => Some(area@),
                None => None,
            },
            focus_effect: match self.focus_effect {
                Some(focus_effect) => Some(focus_effect@),
                None => None,
            },
            component: self.component@,
            target: self.target@,
        }
    }
}

/// The spell that `rest` spells out under `area`, `rest` being the text after
/// the area: a focus or effect if there is one, then the component up to the
/// first `=`, then the target.
pub open spec fn body_of(area: Option<AreaView>, rest: Seq<char>) -> Result<SpellView, ErrorView> {
    match focus_effect_of(rest) {
        Ok((focus_effect, start)) => {
            let assignment = rest.skip(start);
            match find(assignment, '=') {
                Some(equals) => Ok(
                    SpellView {
                        area,
                        focus_effect,
                        component: assignment.take(equals),
                        target: target_of(assignment.skip(equals + 1)),
                    },
                ),
                None => Err(ErrorView::MissingAssignment),
            }
        },
        Err(fault) => Err(fault),
    }
}

/// What follows the area of `spell`: the text after the first `__`, or all of
/// it where it has no `__`.
pub open spec fn after_area(spell: Seq<char>) -> Seq<char> {
    match find_pair(spell, '_') {
        Some(end) => spell.skip(end + 2),
        None => spell,
    }
}

/// The spell that `spell` spells out. What stands before the first `__` is the
/// area, and the rest begins after those two underscores; a text without `__`
/// has no area.
pub open spec fn spell_of(spell: Seq<char>) -> Result<SpellView, ErrorView> {
    match find_pair(spell, '_') {
        Some(end) => match area_of(spell.take(end)) {
            Ok(area) => body_of(Some(area), after_area(spell)),
            Err(fault) => Err(fault),
        },
        None => body_of(None, after_area(spell)),
    }
}

/// What reading a spell gave, with the spell's texts as sequences of characters.
pub open spec fn spell_outcome(read: Result<Spell, SpellError>) -> Result<SpellView, ErrorView> {
    match read {
        Ok(spell) => Ok(spell@),
        Err(fault) => Err(fault@),
    }
}

impl Spell {
    /// Reads a spell. The text is read once from left to right; the first
    /// fault met is returned, and no part of a spell with it.
    pub fn from_str(spell: &str) -> (read: Result<Spell, SpellError>)
        ensures
            spell_outcome(read) == spell_of(spell@),
            read matches Ok(spell) ==> spell@.wf(),
    {
        proof {
            lemma_spell_wf(spell@);
        }
        let laid_out = Text::new(spell);
        let text = laid_out.fragment();
        let n = text.len();
        match text.find_pair('_') {
            Some(end) => {
                let area = match SpellArea::parse(&text.slice(0, end)) {
                    Ok(area) => area,
                    Err(fault) => {
                        return Err(fault);
                    },
                };
                Self::parse_body(Some(area), &text.slice(end + 2, n))
            },
            None => Self::parse_body(None, &text),
        }
    }

    /// Reads what follows the area of a spell.
    fn parse_body(area: Option<SpellArea>, rest: &Fragment) -> (read: Result<Spell, SpellError>)
        ensures
            spell_outcome(read) == body_of(
                match area {
                    Some(area) => Some(area@),
                    None => None,
                },
                rest@,
            ),
    {
        let (focus_effect, start) = match FocusOrEffect::parse(rest) {
            Ok(found) => found,
            Err(fault) => {
                return Err(fault);
            },
        };
        let assignment = rest.slice(start, rest.len());
        let equals = match assignment.find('=') {
            Some(equals) => equals,
            None => {
                return Err(SpellError::MissingAssignment);
            },
        };
        let component = assignment.slice(0, equals).to_string();
        let target = match SpellTarget::parse(&assignment.slice(equals + 1, assignment.len())) {
            Ok(target) => target,
            Err(fault) => {
                return Err(fault);
            },
        };
        Ok(Spell { area, focus_effect, component, target })
    }
}

impl std::str::FromStr for Spell {
    type Err = SpellError;

    fn from_str(spell: &str) -> (read: Result<Spell, SpellError>)
        ensures
            spell_outcome(read) == spell_of(spell@),
            read matches Ok(spell) ==> spell@.wf(),
    {
        Spell::from_str(spell)
    }
}

/// Every spell that is read is well formed.
pub proof fn lemma_spell_wf(spell: Seq<char>)
    ensures
        spell_of(spell) matches Ok(read) ==> read.wf(),
{
    let rest = after_area(spell);
    if let Some(end) = find_pair(spell, '_') {
        lemma_area_wf(spell.take(end));
    }
    lemma_focus_effect_wf(rest);
    if let Ok((_, start)) = focus_effect_of(rest) {
        let assignment = rest.skip(start);
        lemma_find_either(assignment, '=', '=');
        if let Some(equals) = find(assignment, '=') {
            lemma_target_wf(assignment.skip(equals + 1));
        }
    }
}

/// A text in which no two underscores stand side by side has no area: it is
/// read from its first character as focus or effect, component and target.
pub proof fn lemma_no_area_without_marker(spell: Seq<char>)
    requires
        forall|i: int| !pair_at(spell, '_', i),
    ensures
        spell_of(spell) == body_of(None, spell),
        spell_of(spell) matches Ok(read) ==> read.area is None,
{
    lemma_find_pair(spell, '_');
}

/// A breakpoint keyword followed by `__` puts whatever comes after it under
/// that breakpoint: the rest is read as it would be without an area, and a
/// spell that is read has the keyword's size as its area.
pub proof fn lemma_breakpoint_area(size: SpellBreakpoint, rest: Seq<char>)
    ensures
        spell_of(size.keyword() + "__"@ + rest) == body_of(
            Some(AreaView::Breakpoint(size)),
            rest,
        ),
        spell_of(size.keyword() + "__"@ + rest) matches Ok(read) ==> read.area == Some(
            AreaView::Breakpoint(size),
        ),
{
    let keyword = size.keyword();
    let spell = keyword + "__"@ + rest;
    let end = keyword.len() as int;
    reveal_strlit("__");
    reveal_strlit("sm");
    reveal_strlit("md");
    reveal_strlit("lg");
    reveal_strlit("xl");
    reveal_strlit("xxl");
    assert(forall|j: int| 0 <= j < end ==> keyword[j] != '_' && keyword[j] != '(');
    assert(spell[end] == "__"@[0] && spell[end + 1] == "__"@[1]);
    assert forall|j: int| 0 <= j < end implies !pair_at(spell, '_', j) by {
        assert(spell[j] == keyword[j]);
    }
    lemma_find_pair_is(spell, '_', end);
    assert(spell.take(end) =~= keyword);
    assert(spell.skip(end + 2) =~= rest);
    lemma_breakpoint_keyword(size, keyword);
}

/// The area of `spell`, if it has one, and its focus or effect, if it has
/// one, can be read, and no `=` follows the place at which the component
/// begins.
pub open spec fn lacks_assignment(spell: Seq<char>) -> bool {
    &&& find_pair(spell, '_') matches Some(end) ==> area_of(spell.take(end)) is Ok
    &&& focus_effect_of(after_area(spell)) matches Ok((_, start)) && !after_area(spell).skip(
        start,
    ).contains('=')
}

/// A text fails for want of an assignment exactly where all that stands
/// before its component can be read and no `=` follows: however much of a
/// spell precedes, without the `=` there is none.
pub proof fn lemma_missing_assignment(spell: Seq<char>)
    ensures
        spell_of(spell) == Err::<SpellView, ErrorView>(ErrorView::MissingAssignment)
            <==> lacks_assignment(spell),
{
    if let Ok((_, start)) = focus_effect_of(after_area(spell)) {
        lemma_find_either(after_area(spell).skip(start), '=', '=');
    }
}

/// A text without any `=` is no spell.
pub proof fn lemma_no_spell_without_equals(spell: Seq<char>)
    requires
        !spell.contains('='),
    ensures
        spell_of(spell) is Err,
{
    if let Ok((_, start)) = focus_effect_of(after_area(spell)) {
        let assignment = after_area(spell).skip(start);
        lemma_find_either(assignment, '=', '=');
        if let Some(equals) = find(assignment, '=') {
            lemma_find_pair(spell, '_');
            assert(spell.contains(assignment[equals]));
        }
    }
}

} // verus!
