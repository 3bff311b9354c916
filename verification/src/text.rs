//! Searching and splitting character sequences.
//!
//! The grammar of a spell is defined by where delimiters occur first, so the
//! model is a handful of functions on `Seq<char>`. [`Text`] lays a string out
//! for reading, and [`Fragment`] is a piece of it on which those functions are
//! computed.

use vstd::prelude::*;
use vstd::slice::slice_subrange;

verus! {

/// `i` is the first position of `s` that holds `a` or `b`.
pub open spec fn first_of(s: Seq<char>, a: char, b: char, i: int) -> bool {
    &&& 0 <= i < s.len()
    &&& (s[i] == a || s[i] == b)
    &&& forall|j: int| 0 <= j < i ==> s[j] != a && s[j] != b
}

/// The first position of `s` that holds `a` or `b`, if there is one.
pub open spec fn find_either(s: Seq<char>, a: char, b: char) -> Option<int> {
    if exists|i: int| first_of(s, a, b, i) {
        Some(choose|i: int| first_of(s, a, b, i))
    } else {
        None
    }
}

/// The first position of `s` that holds `c`, if there is one.
pub open spec fn find(s: Seq<char>, c: char) -> Option<int> {
    find_either(s, c, c)
}

/// `s` holds `c` at `i` and again right after it.
pub open spec fn pair_at(s: Seq<char>, c: char, i: int) -> bool {
    0 <= i && i + 1 < s.len() && s[i] == c && s[i + 1] == c
}

/// `i` is the first position of `s` at which `c` stands twice in a row.
pub open spec fn first_pair(s: Seq<char>, c: char, i: int) -> bool {
    &&& pair_at(s, c, i)
    &&& forall|j: int| 0 <= j < i ==> !pair_at(s, c, j)
}

/// The first position of `s` at which `c` stands twice in a row, if there is one.
pub open spec fn find_pair(s: Seq<char>, c: char) -> Option<int> {
    if exists|i: int| first_pair(s, c, i) {
        Some(choose|i: int| first_pair(s, c, i))
    } else {
        None
    }
}

/// A first occurrence is the only one: it is what `find_either` returns.
pub proof fn lemma_find_either_is(s: Seq<char>, a: char, b: char, i: int)
    requires
        first_of(s, a, b, i),
    ensures
        find_either(s, a, b) == Some(i),
{
    let k = choose|k: int| first_of(s, a, b, k);
    assert(first_of(s, a, b, k));
    if k < i {
        assert(s[k] != a && s[k] != b);
    } else if i < k {
        assert(s[i] != a && s[i] != b);
    }
}

/// Where neither character occurs, `find_either` returns nothing.
pub proof fn lemma_find_either_none(s: Seq<char>, a: char, b: char)
    requires
        forall|j: int| 0 <= j < s.len() ==> s[j] != a && s[j] != b,
    ensures
        find_either(s, a, b) is None,
{
}

/// What `find_either` returns is a first occurrence, and it returns nothing only
/// where neither character occurs.
pub proof fn lemma_find_either(s: Seq<char>, a: char, b: char)
    ensures
        match find_either(s, a, b) {
            Some(i) => first_of(s, a, b, i),
            None => forall|j: int| 0 <= j < s.len() ==> s[j] != a && s[j] != b,
        },
{
    if find_either(s, a, b) is None {
        lemma_no_first_of(s, a, b, s.len() as int);
    }
}

/// Without a first occurrence there is none in any prefix.
proof fn lemma_no_first_of(s: Seq<char>, a: char, b: char, n: int)
    requires
        0 <= n <= s.len(),
        forall|i: int| !first_of(s, a, b, i),
    ensures
        forall|j: int| 0 <= j < n ==> s[j] != a && s[j] != b,
    decreases n,
{
    if n > 0 {
        lemma_no_first_of(s, a, b, n - 1);
        assert(!first_of(s, a, b, n - 1));
    }
}

/// A first doubled occurrence is the only one: it is what `find_pair` returns.
pub proof fn lemma_find_pair_is(s: Seq<char>, c: char, i: int)
    requires
        first_pair(s, c, i),
    ensures
        find_pair(s, c) == Some(i),
{
    let k = choose|k: int| first_pair(s, c, k);
    assert(first_pair(s, c, k));
    if k < i {
        assert(!pair_at(s, c, k));
    } else if i < k {
        assert(!pair_at(s, c, i));
    }
}

/// What `find_pair` returns is a first doubled occurrence, and it returns
/// nothing only where `c` never stands twice in a row.
pub proof fn lemma_find_pair(s: Seq<char>, c: char)
    ensures
        match find_pair(s, c) {
            Some(i) => first_pair(s, c, i),
            None => forall|j: int| !pair_at(s, c, j),
        },
{
    if find_pair(s, c) is None {
        lemma_no_first_pair(s, c, s.len() as int);
    }
}

/// Without a first doubled occurrence there is none before any position.
proof fn lemma_no_first_pair(s: Seq<char>, c: char, n: int)
    requires
        0 <= n,
        forall|i: int| !first_pair(s, c, i),
    ensures
        forall|j: int| j < n ==> !pair_at(s, c, j),
    decreases n,
{
    if n > 0 {
        lemma_no_first_pair(s, c, n - 1);
        assert(!first_pair(s, c, n - 1));
    }
}

/// The pieces of `s` between the occurrences of `sep`, in order. A text without
/// `sep` is one piece; a separator at either end, or two in a row, give an
/// empty piece.
pub open spec fn split(s: Seq<char>, sep: char) -> Seq<Seq<char>>
    decreases s.len(),
{
    match find(s, sep) {
        Some(i) => seq![s.take(i)] + split(s.skip(i + 1), sep),
        None => seq![s],
    }
}

/// The pieces put together again, with `sep` between neighbours.
pub open spec fn join(pieces: Seq<Seq<char>>, sep: char) -> Seq<char>
    decreases pieces.len(),
{
    if pieces.len() == 0 {
        Seq::empty()
    } else if pieces.len() == 1 {
        pieces[0]
    } else {
        pieces[0] + seq![sep] + join(pieces.drop_first(), sep)
    }
}

/// Splitting finds the pieces that were joined: for one piece or more, none of
/// which holds the separator, `split` undoes `join`.
pub proof fn lemma_split_join(pieces: Seq<Seq<char>>, sep: char)
    requires
        pieces.len() >= 1,
        forall|k: int| 0 <= k < pieces.len() ==> !(#[trigger] pieces[k]).contains(sep),
    ensures
        split(join(pieces, sep), sep) == pieces,
    decreases pieces.len(),
{
    let s = join(pieces, sep);
    if pieces.len() == 1 {
        assert(!pieces[0].contains(sep));
        lemma_find_either_none(s, sep, sep);
        assert(split(s, sep) == seq![s]);
        assert(seq![s] =~= pieces);
    } else {
        let head = pieces[0];
        let tail = pieces.drop_first();
        let i = head.len() as int;
        assert(!head.contains(sep));
        assert(s == head + seq![sep] + join(tail, sep));
        assert(s[i] == sep);
        assert forall|j: int| 0 <= j < i implies s[j] != sep by {
            assert(s[j] == head[j]);
        }
        lemma_find_either_is(s, sep, sep, i);
        assert(s.take(i) =~= head);
        assert(s.skip(i + 1) =~= join(tail, sep));
        assert forall|k: int| 0 <= k < tail.len() implies !(#[trigger] tail[k]).contains(sep) by {
            assert(tail[k] == pieces[k + 1]);
        }
        lemma_split_join(tail, sep);
        assert(split(s, sep) == seq![head] + tail);
        assert(seq![head] + tail =~= pieces);
    }
}

/// Joining restores the text that was split, and no piece of a split holds the
/// separator.
pub proof fn lemma_join_split(s: Seq<char>, sep: char)
    ensures
        join(split(s, sep), sep) == s,
        split(s, sep).len() >= 1,
        forall|k: int|
            0 <= k < split(s, sep).len() ==> !(#[trigger] split(s, sep)[k]).contains(sep),
    decreases s.len(),
{
    lemma_find_either(s, sep, sep);
    match find(s, sep) {
        Some(i) => {
            let rest = s.skip(i + 1);
            lemma_join_split(rest, sep);
            let pieces = split(s, sep);
            assert(pieces == seq![s.take(i)] + split(rest, sep));
            assert(pieces.drop_first() =~= split(rest, sep));
            assert(pieces[0] == s.take(i));
            assert(join(pieces, sep) == s.take(i) + seq![sep] + rest);
            assert(s.take(i) + seq![sep] + rest =~= s);
            assert forall|k: int| 0 <= k < pieces.len() implies !(#[trigger] pieces[k]).contains(
                sep,
            ) by {
                if k > 0 {
                    assert(pieces[k] == split(rest, sep)[k - 1]);
                }
            }
        },
        None => {
            assert(split(s, sep) == seq![s]);
        },
    }
}

/// Splitting invents nothing: every character of every piece is a character
/// of the text that was split.
pub proof fn lemma_split_chars(s: Seq<char>, sep: char)
    ensures
        forall|k: int, i: int|
            0 <= k < split(s, sep).len() && 0 <= i < split(s, sep)[k].len() ==> s.contains(
                #[trigger] split(s, sep)[k][i],
            ),
    decreases s.len(),
{
    let pieces = split(s, sep);
    lemma_find_either(s, sep, sep);
    match find(s, sep) {
        Some(at) => {
            let rest = s.skip(at + 1);
            lemma_split_chars(rest, sep);
            assert forall|k: int, i: int|
                0 <= k < pieces.len() && 0 <= i < pieces[k].len() implies s.contains(
                #[trigger] pieces[k][i],
            ) by {
                if k == 0 {
                    assert(pieces[k][i] == s[i]);
                } else {
                    let c = split(rest, sep)[k - 1][i];
                    assert(pieces[k][i] == c);
                    assert(rest.contains(c));
                    let j = choose|j: int| 0 <= j < rest.len() && rest[j] == c;
                    assert(s[at + 1 + j] == c);
                }
            }
        },
        None => {
            assert forall|k: int, i: int|
                0 <= k < pieces.len() && 0 <= i < pieces[k].len() implies s.contains(
                #[trigger] pieces[k][i],
            ) by {
                assert(pieces[k][i] == s[i]);
            }
        },
    }
}

/// A position that a search returned, as the integer that the model speaks of.
pub open spec fn position(found: Option<usize>) -> Option<int> {
    match found {
        Some(i) => Some(i as int),
        None => None,
    }
}

/// The characters of `text`, in order.
pub fn chars_of(text: &str) -> (chars: Vec<char>)
    ensures
        chars@ == text@,
{
    let mut chars: Vec<char> = Vec::new();
    for c in it: text.chars()
        invariant
            it.seq() == text@,
            chars@ == text@.take(it.index() as int),
    {
        chars.push(c);
    }
    chars
}

/// A text together with its characters, laid out so that each can be read by
/// its position.
pub struct Text<'a> {
    text: &'a str,
    chars: Vec<char>,
}

impl<'a> View for Text<'a> {
    type V = Seq<char>;

    closed spec fn view(&self) -> Seq<char> {
        self.text@
    }
}

impl<'a> Text<'a> {
    #[verifier::type_invariant]
    spec fn same_text(&self) -> bool {
        self.chars@ == self.text@
    }

    /// Lays out the characters of `text`.
    pub fn new(text: &'a str) -> (laid_out: Self)
        ensures
            laid_out@ == text@,
    {
        Text { text, chars: chars_of(text) }
    }

    /// The whole text as a fragment.
    pub fn fragment(&self) -> (whole: Fragment<'_>)
        ensures
            whole@ == self@,
    {
        proof {
            use_type_invariant(self);
        }
        Fragment { text: self.text, chars: self.chars.as_slice() }
    }
}

/// A piece of a text, held as a string slice and as its characters: a
/// character is read in constant time, and a part is cut out without copying.
#[derive(Clone, Copy)]
pub struct Fragment<'a> {
    text: &'a str,
    chars: &'a [char],
}

impl<'a> View for Fragment<'a> {
    type V = Seq<char>;

    closed spec fn view(&self) -> Seq<char> {
        self.text@
    }
}

impl<'a> Fragment<'a> {
    #[verifier::type_invariant]
    spec fn same_text(&self) -> bool {
        self.chars@ == self.text@
    }

    /// The number of characters.
    pub fn len(&self) -> (n: usize)
        ensures
            n == self@.len(),
    {
        proof {
            use_type_invariant(self);
        }
        self.chars.len()
    }

    /// The character at `i`.
    pub fn at(&self, i: usize) -> (c: char)
        requires
            i < self@.len(),
        ensures
            c == self@[i as int],
    {
        proof {
            use_type_invariant(self);
        }
        self.chars[i]
    }

    /// The part from `from` up to, not including, `to`.
    pub fn slice(&self, from: usize, to: usize) -> (part: Fragment<'a>)
        requires
            from <= to <= self@.len(),
        ensures
            part@ == self@.subrange(from as int, to as int),
    {
        proof {
            use_type_invariant(self);
        }
        Fragment {
            text: self.text.substring_char(from, to),
            chars: slice_subrange(self.chars, from, to),
        }
    }

    /// The fragment as a string of its own.
    pub fn to_string(&self) -> (string: String)
        ensures
            string@ == self@,
    {
        self.text.to_owned()
    }

    /// Whether the fragment reads exactly `word`.
    pub fn equals(&self, word: &str) -> (same: bool)
        ensures
            same == (self@ == word@),
    {
        let n = self.len();
        let mut i: usize = 0;
        let mut same = true;
        for c in it: word.chars()
            invariant
                it.seq() == word@,
                n == self@.len(),
                same ==> i == it.index() && i <= n && self@.take(i as int) == word@.take(i as int),
                !same ==> self@ != word@,
        {
            if same {
                if i < n && self.at(i) == c {
                    assert(self@.take(i + 1) =~= self@.take(i as int).push(c));
                    assert(word@.take(i + 1) =~= word@.take(i as int).push(c));
                    i += 1;
                } else {
                    same = false;
                }
            }
        }
        proof {
            if same && i == n {
                assert(self@.take(n as int) =~= self@);
                assert(word@.take(n as int) =~= word@);
            }
        }
        same && i == n
    }

    /// Where `a` or `b` first occurs.
    pub fn find_either(&self, a: char, b: char) -> (found: Option<usize>)
        ensures
            position(found) == find_either(self@, a, b),
    {
        let n = self.len();
        let mut i: usize = 0;
        while i < n
            invariant
                i <= n == self@.len(),
                forall|j: int| 0 <= j < i ==> self@[j] != a && self@[j] != b,
            decreases n - i,
        {
            let c = self.at(i);
            if c == a || c == b {
                proof {
                    lemma_find_either_is(self@, a, b, i as int);
                }
                return Some(i);
            }
            i += 1;
        }
        proof {
            lemma_find_either_none(self@, a, b);
        }
        None
    }

    /// Where `c` first occurs.
    pub fn find(&self, c: char) -> (found: Option<usize>)
        ensures
            position(found) == find(self@, c),
    {
        self.find_either(c, c)
    }

    /// Where `c` first stands twice in a row.
    pub fn find_pair(&self, c: char) -> (found: Option<usize>)
        ensures
            position(found) == find_pair(self@, c),
    {
        let n = self.len();
        let mut i: usize = 0;
        while n - i >= 2
            invariant
                i <= n == self@.len(),
                forall|j: int| 0 <= j < i ==> !pair_at(self@, c, j),
            decreases n - i,
        {
            if self.at(i) == c && self.at(i + 1) == c {
                proof {
                    lemma_find_pair_is(self@, c, i as int);
                }
                return Some(i);
            }
            i += 1;
        }
        proof {
            lemma_find_pair(self@, c);
        }
        None
    }

    /// The pieces between the occurrences of `sep`, each as a string of its own.
    pub fn split(&self, sep: char) -> (pieces: Vec<String>)
        ensures
            pieces.deep_view() == split(self@, sep),
    {
        let n = self.len();
        let mut pieces: Vec<String> = Vec::new();
        let mut start: usize = 0;
        let mut i: usize = 0;
        assert(self@.skip(0) =~= self@);
        assert(pieces.deep_view() + split(self@, sep) =~= split(self@, sep));
        while i < n
            invariant
                start <= i <= n == self@.len(),
                forall|j: int| start <= j < i ==> self@[j] != sep,
                split(self@, sep) == pieces.deep_view() + split(self@.skip(start as int), sep),
            decreases n - i,
        {
            if self.at(i) == sep {
                let piece = self.slice(start, i).to_string();
                proof {
                    let rest = self@.skip(start as int);
                    lemma_find_either_is(rest, sep, sep, i - start);
                    assert(rest.take(i - start) =~= piece@);
                    assert(rest.skip(i - start + 1) =~= self@.skip(i + 1));
                    assert(pieces.deep_view().push(piece@) + split(self@.skip(i + 1), sep)
                        =~= pieces.deep_view() + split(rest, sep));
                }
                let ghost before = pieces.deep_view();
                pieces.push(piece);
                assert(pieces.deep_view() =~= before.push(piece@));
                start = i + 1;
            }
            i += 1;
        }
        let piece = self.slice(start, n).to_string();
        proof {
            let rest = self@.skip(start as int);
            lemma_find_either_none(rest, sep, sep);
            assert(rest =~= piece@);
            assert(pieces.deep_view().push(piece@) =~= pieces.deep_view() + split(rest, sep));
        }
        let ghost before = pieces.deep_view();
        pieces.push(piece);
        assert(pieces.deep_view() =~= before.push(piece@));
        pieces
    }
}

} // verus!
