//! What a spell assigns to its component: a value, or a list of variables.

use crate::error::SpellError;
use crate::text::{
    find, join, lemma_find_either, lemma_join_split, lemma_split_chars,
    lemma_split_join, split, Fragment, Text,
};
use vstd::prelude::*;

verus! {

/// Whether `c` is a letter or a number in the sense of Unicode, as
/// `char::is_alphanumeric` decides it.
pub uninterp spec fn is_alphanumeric(c: char) -> bool;

/// Taken on trust of `char::is_alphanumeric` of the standard library, which
/// tells whether a character has the Unicode property Alphabetic or is in one
/// of the number categories: that its answer depends on the character alone,
/// so that it is the value which the model calls `is_alphanumeric`. Which
/// characters those are is left to the tables of the standard library; nothing
/// is claimed of any single character.
pub assume_specification[ char::is_alphanumeric ](c: char) -> (yes: bool)
    ensures
        yes == is_alphanumeric(c),
;

/// The right-hand side of a spell.
#[derive(Debug, PartialEq, Eq)]
pub enum SpellTarget {
    /// A value, taken over as it is written.
    CSSValue(String),
    /// The names of variables, in the order in which they are written.
    Variables(Vec<String>),
}

/// A target with its texts as sequences of characters.
pub enum TargetView {
    CSSValue(Seq<char>),
    Variables(Seq<Seq<char>>),
}

impl TargetView {
    /// A list of variables has two names or more, each made of letters and
    /// numbers alone, without an underscore. A value is a text that is no such
    /// list: it has no underscore, or a character that is none of underscore,
    /// letter, number.
    pub open spec fn wf(self) -> bool {
        match self {
            TargetView::CSSValue(value) => !(value.contains('_') && only_word_chars(value)),
            TargetView::Variables(names) => {
                &&& names.len() >= 2
                &&& forall|k: int, i: int|
                    0 <= k < names.len() && 0 <= i < names[k].len() ==> is_alphanumeric(
                        #[trigger] names[k][i],
                    ) && names[k][i] != '_'
            },
        }
    }

    /// The text that spells the target out: the value itself, or the names
    /// with an underscore between neighbours.
    pub open spec fn text(self) -> Seq<char> {
        match self {
            TargetView::CSSValue(value) => value,
            TargetView::Variables(names) => join(names, '_'),
        }
    }
}

impl View for SpellTarget {
    type V = TargetView;

    open spec fn view(&self) -> TargetView {
        match self {
            SpellTarget::CSSValue(value) => TargetView::CSSValue(value@),
            SpellTarget::Variables(names) => TargetView::Variables(names.deep_view()),
        }
    }
}

/// A character that may stand in a list of variables.
pub open spec fn is_word_char(c: char) -> bool {
    is_alphanumeric(c) || c == '_'
}

/// Every character of `target` may stand in a list of variables.
pub open spec fn only_word_chars(target: Seq<char>) -> bool {
    forall|i: int| 0 <= i < target.len() ==> is_word_char(#[trigger] target[i])
}

/// The target that `target` stands for, `words` telling whether all of its
/// characters may stand in a list of variables.
pub open spec fn classified(target: Seq<char>, words: bool) -> TargetView {
    if target.contains('_') && words {
        TargetView::Variables(split(target, '_'))
    } else {
        TargetView::CSSValue(target)
    }
}

/// The target that `target` stands for: a list of variables where it holds an
/// underscore and nothing but underscores, letters and numbers; the value
/// itself otherwise.
pub open spec fn target_of(target: Seq<char>) -> TargetView {
    classified(target, only_word_chars(target))
}

impl SpellTarget {
    /// Reads a target from the text that follows the `=` of a spell.
    pub fn from_str(target: &str) -> (read: Result<SpellTarget, SpellError>)
        ensures
            read is Ok,
            read.unwrap()@ == target_of(target@),
            read.unwrap()@.wf(),
    {
        Self::parse(&Text::new(target).fragment())
    }

    /// Reads a target of which the caller knows whether all its characters are
    /// underscores, letters and numbers.
    pub fn classify(target: &str, words: bool) -> (read: Result<SpellTarget, SpellError>)
        ensures
            read is Ok,
            read.unwrap()@ == classified(target@, words),
    {
        Self::parse_classified(&Text::new(target).fragment(), words)
    }

    /// Reads a target from the fragment that follows the `=`.
    pub(crate) fn parse(target: &Fragment) -> (read: Result<SpellTarget, SpellError>)
        ensures
            read is Ok,
            read.unwrap()@ == target_of(target@),
            read.unwrap()@.wf(),
    {
        proof {
            lemma_target_wf(target@);
        }
        let n = target.len();
        let mut words = true;
        let mut i: usize = 0;
        while i < n
            invariant
                i <= n == target@.len(),
                words == only_word_chars(target@.take(i as int)),
            decreases n - i,
        {
            let c = target.at(i);
            proof {
                let before = target@.take(i as int);
                let after = target@.take(i + 1);
                assert(after[i as int] == c);
                assert(forall|j: int| 0 <= j < i ==> after[j] == before[j]);
            }
            words = words && (c.is_alphanumeric() || c == '_');
            i += 1;
        }
        assert(target@.take(n as int) =~= target@);
        Self::parse_classified(target, words)
    }

    /// Reads a target from a fragment that has been classified.
    fn parse_classified(target: &Fragment, words: bool) -> (read: Result<SpellTarget, SpellError>)
        ensures
            read is Ok,
            read.unwrap()@ == classified(target@, words),
    {
        let underscore = target.find('_');
        proof {
            lemma_find_either(target@, '_', '_');
        }
        if underscore.is_some() && words {
            let names = target.split('_');
            proof {
                lemma_join_split(target@, '_');
            }
            // A guard only: a split has at least one piece, so this is never taken.
            if names.len() == 0 {
                return Err(SpellError::EmptyTarget);
            }
            Ok(SpellTarget::Variables(names))
        } else {
            Ok(SpellTarget::CSSValue(target.to_string()))
        }
    }
}

impl std::str::FromStr for SpellTarget {
    type Err = SpellError;

    fn from_str(target: &str) -> (read: Result<SpellTarget, SpellError>)
        ensures
            read is Ok,
            read.unwrap()@ == target_of(target@),
            read.unwrap()@.wf(),
    {
        SpellTarget::from_str(target)
    }
}

/// Every target that is read is well formed.
pub proof fn lemma_target_wf(target: Seq<char>)
    ensures
        target_of(target).wf(),
{
    if target.contains('_') && only_word_chars(target) {
        let names = split(target, '_');
        lemma_find_either(target, '_', '_');
        lemma_join_split(target, '_');
        lemma_split_chars(target, '_');
        let first = find(target, '_')->Some_0;
        lemma_join_split(target.skip(first + 1), '_');
        assert forall|k: int, i: int|
            0 <= k < names.len() && 0 <= i < names[k].len() implies is_alphanumeric(
            #[trigger] names[k][i],
        ) by {
            let c = names[k][i];
            assert(target.contains(c));
            let j = choose|j: int| 0 <= j < target.len() && target[j] == c;
            assert(is_word_char(target[j]));
            assert(!names[k].contains('_'));
        }
    }
}

/// Texts and well-formed targets stand for each other: a target that is read
/// spells out the text it was read from, and a well-formed target is read
/// back from the text that spells it out.
pub proof fn lemma_target_round_trip(target: Seq<char>, read: TargetView)
    ensures
        target_of(target).text() == target,
        read.wf() ==> target_of(read.text()) == read,
{
    lemma_join_split(target, '_');
    if read.wf() {
        match read {
            TargetView::CSSValue(value) => {},
            TargetView::Variables(names) => {
                lemma_variables_of_joined_names(names);
            },
        }
    }
}

/// A text without an underscore is a value, and is taken over unchanged.
pub proof fn lemma_value_without_underscore(target: Seq<char>)
    requires
        !target.contains('_'),
    ensures
        target_of(target) == TargetView::CSSValue(target),
{
}

/// Two or more names made of letters and numbers, joined by underscores, are
/// read back as those names in that order. An underscore counts as no part of a
/// name here: it is what parts the names.
pub proof fn lemma_variables_of_joined_names(names: Seq<Seq<char>>)
    requires
        names.len() >= 2,
        forall|k: int, i: int|
            0 <= k < names.len() && 0 <= i < names[k].len() ==> is_alphanumeric(
                #[trigger] names[k][i],
            ) && names[k][i] != '_',
    ensures
        target_of(join(names, '_')) == TargetView::Variables(names),
{
    let target = join(names, '_');
    assert forall|k: int| 0 <= k < names.len() implies !(#[trigger] names[k]).contains('_') by {
        if names[k].contains('_') {
            let i = choose|i: int| 0 <= i < names[k].len() && names[k][i] == '_';
            assert(names[k][i] != '_');
        }
    }
    lemma_split_join(names, '_');
    lemma_joined_word_chars(names);
    let underscore = names[0].len() as int;
    assert(target == names[0] + seq!['_'] + join(names.drop_first(), '_'));
    assert(target[underscore] == '_');
}

/// Names made of word characters are joined to a text of word characters.
proof fn lemma_joined_word_chars(names: Seq<Seq<char>>)
    requires
        forall|k: int, i: int|
            0 <= k < names.len() && 0 <= i < names[k].len() ==> is_word_char(
                #[trigger] names[k][i],
            ),
    ensures
        only_word_chars(join(names, '_')),
    decreases names.len(),
{
    if names.len() >= 2 {
        let rest = names.drop_first();
        assert forall|k: int, i: int|
            0 <= k < rest.len() && 0 <= i < rest[k].len() implies is_word_char(
            #[trigger] rest[k][i],
        ) by {
            assert(rest[k][i] == names[k + 1][i]);
        }
        lemma_joined_word_chars(rest);
        let head = names[0];
        let tail = join(rest, '_');
        let joined = join(names, '_');
        assert(joined == head + seq!['_'] + tail);
        assert forall|i: int| 0 <= i < joined.len() implies is_word_char(#[trigger] joined[i]) by {
            if i < head.len() {
                assert(joined[i] == names[0][i]);
            } else if i > head.len() {
                assert(joined[i] == tail[i - head.len() - 1]);
            }
        }
    } else if names.len() == 1 {
        let joined = join(names, '_');
        assert forall|i: int| 0 <= i < joined.len() implies is_word_char(#[trigger] joined[i]) by {
            assert(joined[i] == names[0][i]);
        }
    }
}

} // verus!
