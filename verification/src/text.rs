//! Character-level building blocks shared by the parsers: classes of
//! characters, splitting, trimming, and the lines and words of a text.
//!
//! Every text is modelled as a `Seq<char>`; the executable functions work on
//! slices of characters and hand out sub-slices of their argument.

use vstd::prelude::*;
use vstd::slice::slice_subrange;

verus! {

/// White space as Unicode defines it (the `White_Space` property).
pub open spec fn is_space(c: char) -> bool {
    let n = c as u32;
    ||| 0x09 <= n <= 0x0D
    ||| n == 0x20
    ||| n == 0x85
    ||| n == 0xA0
    ||| n == 0x1680
    ||| 0x2000 <= n <= 0x200A
    ||| n == 0x2028
    ||| n == 0x2029
    ||| n == 0x202F
    ||| n == 0x205F
    ||| n == 0x3000
}

/// A set of characters that can separate or surround a piece of text.
#[derive(Clone, Copy, Debug)]
pub enum CharClass {
    /// Any white-space character.
    Whitespace,
    /// Exactly the given character.
    Only(char),
}

impl CharClass {
    /// Whether `c` belongs to the class.
    pub open spec fn has(self, c: char) -> bool {
        match self {
            CharClass::Whitespace => is_space(c),
            CharClass::Only(d) => c == d,
        }
    }

    /// Decides membership of `c`.
    pub fn holds(&self, c: char) -> (b: bool)
        ensures
            b == self.has(c),
    {
        match self {
            CharClass::Whitespace => {
                let n: u32 = c as u32;
                (0x09 <= n && n <= 0x0D) || n == 0x20 || n == 0x85 || n == 0xA0 || n == 0x1680
                    || (0x2000 <= n && n <= 0x200A) || n == 0x2028 || n == 0x2029 || n == 0x202F
                    || n == 0x205F || n == 0x3000
            },
            CharClass::Only(d) => c == *d,
        }
    }
}

/// The texts that a sequence of slices holds, in order.
pub open spec fn views(pieces: Seq<&[char]>) -> Seq<Seq<char>> {
    Seq::new(pieces.len(), |i: int| pieces[i]@)
}

/// Pushing a slice pushes its text.
pub proof fn lemma_views_push(pieces: Seq<&[char]>, piece: &[char])
    ensures
        views(pieces.push(piece)) == views(pieces).push(piece@),
{
    assert(views(pieces.push(piece)) =~= views(pieces).push(piece@));
}

/// The pieces of `s` between the characters of `sep`. Two separators in a
/// row, or one at either end, leave an empty piece; a text without any
/// separator is its own single piece.
pub open spec fn pieces(s: Seq<char>, sep: CharClass) -> Seq<Seq<char>>
    decreases s.len(),
{
    if s.len() == 0 {
        seq![Seq::<char>::empty()]
    } else {
        let before = pieces(s.drop_last(), sep);
        if sep.has(s.last()) {
            before.push(Seq::<char>::empty())
        } else {
            before.drop_last().push(before.last().push(s.last()))
        }
    }
}

/// There is always at least one piece.
pub proof fn lemma_pieces_nonempty(s: Seq<char>, sep: CharClass)
    ensures
        pieces(s, sep).len() >= 1,
    decreases s.len(),
{
    if s.len() > 0 {
        lemma_pieces_nonempty(s.drop_last(), sep);
    }
}

/// Splitting distributes over a separator: the pieces of `a`, one separator
/// and `b` are the pieces of `a` followed by those of `b`.
pub proof fn lemma_pieces_join(a: Seq<char>, c: char, b: Seq<char>, sep: CharClass)
    requires
        sep.has(c),
    ensures
        pieces(a.push(c) + b, sep) == pieces(a, sep) + pieces(b, sep),
    decreases b.len(),
{
    let whole = a.push(c) + b;
    if b.len() == 0 {
        assert(whole =~= a.push(c));
        assert(whole.drop_last() =~= a);
        assert(pieces(a, sep).push(Seq::<char>::empty()) =~= pieces(a, sep) + pieces(b, sep));
    } else {
        assert(whole.drop_last() =~= a.push(c) + b.drop_last());
        assert(whole.last() == b.last());
        lemma_pieces_join(a, c, b.drop_last(), sep);
        lemma_pieces_nonempty(b.drop_last(), sep);
        let left = pieces(a, sep);
        let right = pieces(b.drop_last(), sep);
        if sep.has(b.last()) {
            assert((left + right).push(Seq::<char>::empty()) =~= left + right.push(
                Seq::<char>::empty(),
            ));
        } else {
            assert((left + right).last() == right.last());
            assert((left + right).drop_last() =~= left + right.drop_last());
            assert((left + right.drop_last()).push(right.last().push(b.last())) =~= left
                + right.drop_last().push(right.last().push(b.last())));
        }
    }
}

/// Whether no character of `s` belongs to `class`.
pub open spec fn none_in(s: Seq<char>, class: CharClass) -> bool {
    forall|i: int| 0 <= i < s.len() ==> !class.has(#[trigger] s[i])
}

/// A text without any separator is its own single piece.
pub proof fn lemma_pieces_whole(s: Seq<char>, sep: CharClass)
    requires
        none_in(s, sep),
    ensures
        pieces(s, sep) == seq![s],
    decreases s.len(),
{
    if s.len() == 0 {
        assert(s =~= Seq::<char>::empty());
    } else {
        assert(!sep.has(s[s.len() - 1]));
        lemma_pieces_whole(s.drop_last(), sep);
        assert(s.drop_last().push(s.last()) =~= s);
        assert(seq![s.drop_last()].drop_last().push(s) =~= seq![s]);
    }
}

/// Splits `s` at every character of `sep`.
pub fn split<'a>(s: &'a [char], sep: CharClass) -> (out: Vec<&'a [char]>)
    ensures
        views(out@) == pieces(s@, sep),
{
    let mut out: Vec<&'a [char]> = Vec::new();
    let mut start: usize = 0;
    let mut i: usize = 0;
    assert(s@.take(0) =~= Seq::<char>::empty());
    assert(views(out@).push(s@.subrange(0, 0)) =~= seq![Seq::<char>::empty()]);
    while i < s.len()
        invariant
            start <= i <= s.len(),
            views(out@).push(s@.subrange(start as int, i as int)) == pieces(s@.take(i as int), sep),
        decreases s.len() - i,
    {
        let ghost before = pieces(s@.take(i as int), sep);
        proof {
            assert(s@.take(i + 1).drop_last() =~= s@.take(i as int));
            assert(s@.take(i + 1).last() == s@[i as int]);
        }
        if sep.holds(s[i]) {
            let piece = slice_subrange(s, start, i);
            proof {
                lemma_views_push(out@, piece);
            }
            out.push(piece);
            start = i + 1;
            proof {
                assert(s@.subrange(start as int, i + 1) =~= Seq::<char>::empty());
            }
        } else {
            proof {
                assert(before.last() == s@.subrange(start as int, i as int));
                assert(before.drop_last() =~= views(out@));
                assert(s@.subrange(start as int, i + 1) =~= s@.subrange(
                    start as int,
                    i as int,
                ).push(s@[i as int]));
            }
        }
        i = i + 1;
    }
    let piece = slice_subrange(s, start, i);
    proof {
        lemma_views_push(out@, piece);
        assert(s@.take(i as int) =~= s@);
    }
    out.push(piece);
    out
}

/// `s` without its longest prefix made of characters of `class`.
pub open spec fn trimmed_start(s: Seq<char>, class: CharClass) -> Seq<char>
    decreases s.len(),
{
    if s.len() > 0 && class.has(s[0]) {
        trimmed_start(s.skip(1), class)
    } else {
        s
    }
}

/// `s` without its longest suffix made of characters of `class`.
pub open spec fn trimmed_end(s: Seq<char>, class: CharClass) -> Seq<char>
    decreases s.len(),
{
    if s.len() > 0 && class.has(s.last()) {
        trimmed_end(s.drop_last(), class)
    } else {
        s
    }
}

/// `s` without the characters of `class` at either end.
pub open spec fn trimmed(s: Seq<char>, class: CharClass) -> Seq<char> {
    trimmed_end(trimmed_start(s, class), class)
}

/// Whether every character of `s` belongs to `class`.
pub open spec fn all_in(s: Seq<char>, class: CharClass) -> bool {
    forall|i: int| 0 <= i < s.len() ==> class.has(#[trigger] s[i])
}

/// A text made of characters of `class` alone trims to nothing.
pub proof fn lemma_trimmed_blank(s: Seq<char>, class: CharClass)
    requires
        all_in(s, class),
    ensures
        trimmed(s, class).len() == 0,
    decreases s.len(),
{
    if s.len() > 0 {
        assert(class.has(s[0]));
        lemma_trimmed_blank(s.skip(1), class);
    }
}

/// Removes the characters of `class` from both ends of `s`.
pub fn trim<'a>(s: &'a [char], class: CharClass) -> (out: &'a [char])
    ensures
        out@ == trimmed(s@, class),
{
    let mut a: usize = 0;
    assert(s@.subrange(0, s@.len() as int) =~= s@);
    while a < s.len()
        invariant
            a <= s.len(),
            trimmed_start(s@, class) == trimmed_start(s@.subrange(a as int, s@.len() as int), class),
        ensures
            a <= s.len(),
            trimmed_start(s@, class) == s@.subrange(a as int, s@.len() as int),
        decreases s.len() - a,
    {
        if !class.holds(s[a]) {
            break;
        }
        proof {
            assert(s@.subrange(a as int, s@.len() as int).skip(1) =~= s@.subrange(
                a + 1,
                s@.len() as int,
            ));
        }
        a = a + 1;
    }
    let mut b: usize = s.len();
    while b > a
        invariant
            a <= b <= s.len(),
            trimmed(s@, class) == trimmed_end(s@.subrange(a as int, b as int), class),
        ensures
            a <= b <= s.len(),
            trimmed(s@, class) == s@.subrange(a as int, b as int),
        decreases b - a,
    {
        if !class.holds(s[b - 1]) {
            break;
        }
        proof {
            assert(s@.subrange(a as int, b as int).drop_last() =~= s@.subrange(a as int, b - 1));
        }
        b = b - 1;
    }
    slice_subrange(s, a, b)
}

/// The texts of `items` that are not empty, in order.
pub open spec fn non_empty(items: Seq<Seq<char>>) -> Seq<Seq<char>>
    decreases items.len(),
{
    if items.len() == 0 {
        items
    } else if items.last().len() > 0 {
        non_empty(items.drop_last()).push(items.last())
    } else {
        non_empty(items.drop_last())
    }
}

/// Dropping the empty texts distributes over concatenation.
pub proof fn lemma_non_empty_concat(a: Seq<Seq<char>>, b: Seq<Seq<char>>)
    ensures
        non_empty(a + b) == non_empty(a) + non_empty(b),
    decreases b.len(),
{
    if b.len() == 0 {
        assert(a + b =~= a);
        assert(non_empty(a) + non_empty(b) =~= non_empty(a));
    } else {
        assert((a + b).drop_last() =~= a + b.drop_last());
        assert((a + b).last() == b.last());
        lemma_non_empty_concat(a, b.drop_last());
        if b.last().len() > 0 {
            assert((non_empty(a) + non_empty(b.drop_last())).push(b.last()) =~= non_empty(a)
                + non_empty(b.drop_last()).push(b.last()));
        }
    }
}

/// The words of `s`: its maximal runs of characters that are not white
/// space, in order.
pub open spec fn words(s: Seq<char>) -> Seq<Seq<char>> {
    non_empty(pieces(s, CharClass::Whitespace))
}

/// A text that holds no white space, and is not empty, is its own single
/// word.
pub proof fn lemma_words_whole(word: Seq<char>)
    requires
        word.len() > 0,
        none_in(word, CharClass::Whitespace),
    ensures
        words(word) == seq![word],
{
    lemma_pieces_whole(word, CharClass::Whitespace);
    reveal_with_fuel(non_empty, 2);
    assert(seq![word].drop_last() =~= Seq::<Seq<char>>::empty());
    assert(Seq::<Seq<char>>::empty().push(word) =~= seq![word]);
}

/// The words of `a`, one white-space character and `b` are the words of
/// `a` followed by those of `b`.
pub proof fn lemma_words_join(a: Seq<char>, c: char, b: Seq<char>)
    requires
        is_space(c),
    ensures
        words(a.push(c) + b) == words(a) + words(b),
{
    lemma_pieces_join(a, c, b, CharClass::Whitespace);
    lemma_non_empty_concat(pieces(a, CharClass::Whitespace), pieces(b, CharClass::Whitespace));
}

/// The empty text has no words.
pub proof fn lemma_words_of_nothing()
    ensures
        words(Seq::<char>::empty()).len() == 0,
{
    reveal_with_fuel(non_empty, 2);
    assert(seq![Seq::<char>::empty()].drop_last() =~= Seq::<Seq<char>>::empty());
}

/// White space at the beginning of a text adds no word.
proof fn lemma_words_of_trimmed_start(s: Seq<char>)
    ensures
        words(trimmed_start(s, CharClass::Whitespace)) == words(s),
    decreases s.len(),
{
    if s.len() > 0 && is_space(s[0]) {
        lemma_words_of_trimmed_start(s.skip(1));
        lemma_words_of_nothing();
        lemma_words_join(Seq::<char>::empty(), s[0], s.skip(1));
        assert(Seq::<char>::empty().push(s[0]) + s.skip(1) =~= s);
        assert(words(Seq::<char>::empty()) + words(s.skip(1)) =~= words(s.skip(1)));
    }
}

/// White space at the end of a text adds no word.
proof fn lemma_words_of_trimmed_end(s: Seq<char>)
    ensures
        words(trimmed_end(s, CharClass::Whitespace)) == words(s),
    decreases s.len(),
{
    if s.len() > 0 && is_space(s.last()) {
        lemma_words_of_trimmed_end(s.drop_last());
        lemma_words_of_nothing();
        lemma_words_join(s.drop_last(), s.last(), Seq::<char>::empty());
        assert(s.drop_last().push(s.last()) + Seq::<char>::empty() =~= s);
        assert(words(s.drop_last()) + words(Seq::<char>::empty()) =~= words(s.drop_last()));
    }
}

/// The words of a text are the words of the text without the white space
/// around it.
pub proof fn lemma_words_of_trimmed(s: Seq<char>)
    ensures
        words(trimmed(s, CharClass::Whitespace)) == words(s),
{
    lemma_words_of_trimmed_start(s);
    lemma_words_of_trimmed_end(trimmed_start(s, CharClass::Whitespace));
}

/// Splits `s` into its words.
pub fn split_words<'a>(s: &'a [char]) -> (out: Vec<&'a [char]>)
    ensures
        views(out@) == words(s@),
{
    let raw = split(s, CharClass::Whitespace);
    let mut out: Vec<&'a [char]> = Vec::new();
    let mut i: usize = 0;
    assert(views(raw@).take(0) =~= Seq::<Seq<char>>::empty());
    assert(views(out@) =~= Seq::<Seq<char>>::empty());
    while i < raw.len()
        invariant
            i <= raw.len(),
            views(out@) == non_empty(views(raw@).take(i as int)),
        decreases raw.len() - i,
    {
        let piece = raw[i];
        proof {
            assert(views(raw@).take(i + 1).drop_last() =~= views(raw@).take(i as int));
            assert(views(raw@).take(i + 1).last() == piece@);
            lemma_views_push(out@, piece);
        }
        if piece.len() > 0 {
            out.push(piece);
        }
        i = i + 1;
    }
    assert(views(raw@).take(i as int) =~= views(raw@));
    out
}

/// Each text of `lines` without the white space around it.
pub open spec fn each_trimmed(lines: Seq<Seq<char>>) -> Seq<Seq<char>> {
    Seq::new(lines.len(), |i: int| trimmed(lines[i], CharClass::Whitespace))
}

/// The lines of `text` that hold more than white space, each without the
/// white space around it, in order. A line ends at a line feed; a carriage
/// return before it is white space and goes with the rest.
pub open spec fn significant_lines(text: Seq<char>) -> Seq<Seq<char>> {
    non_empty(each_trimmed(pieces(text, CharClass::Only('\n'))))
}

/// The lines of `a`, a line feed and `b` are the lines of `a` followed by
/// those of `b`.
pub proof fn lemma_lines_join(a: Seq<char>, b: Seq<char>)
    ensures
        significant_lines(a.push('\n') + b) == significant_lines(a) + significant_lines(b),
{
    let nl = CharClass::Only('\n');
    lemma_pieces_join(a, '\n', b, nl);
    assert(each_trimmed(pieces(a, nl) + pieces(b, nl)) =~= each_trimmed(pieces(a, nl))
        + each_trimmed(pieces(b, nl)));
    lemma_non_empty_concat(each_trimmed(pieces(a, nl)), each_trimmed(pieces(b, nl)));
}

/// A text without a line feed is one line: it counts, without the white
/// space around it, unless it is white space altogether.
pub proof fn lemma_single_line(line: Seq<char>)
    requires
        none_in(line, CharClass::Only('\n')),
    ensures
        significant_lines(line) == if trimmed(line, CharClass::Whitespace).len() > 0 {
            seq![trimmed(line, CharClass::Whitespace)]
        } else {
            Seq::<Seq<char>>::empty()
        },
{
    lemma_pieces_whole(line, CharClass::Only('\n'));
    let kept = each_trimmed(seq![line]);
    assert(kept =~= seq![trimmed(line, CharClass::Whitespace)]);
    assert(kept.drop_last() =~= Seq::<Seq<char>>::empty());
    reveal_with_fuel(non_empty, 2);
    assert(Seq::<Seq<char>>::empty().push(kept.last()) =~= seq![
        trimmed(line, CharClass::Whitespace),
    ]);
}

/// A line of white space put in front of a line adds no line that counts.
pub proof fn lemma_insert_blank_line(before: Seq<char>, blank: Seq<char>, after: Seq<char>)
    requires
        before.len() == 0 || before.last() == '\n',
        all_in(blank, CharClass::Whitespace),
    ensures
        significant_lines(before + blank.push('\n') + after) == significant_lines(before + after),
{
    lemma_blank_has_no_lines(blank);
    lemma_lines_join(blank, after);
    assert(significant_lines(blank) + significant_lines(after) =~= significant_lines(after));
    if before.len() == 0 {
        assert(before + blank.push('\n') + after =~= blank.push('\n') + after);
        assert(before + after =~= after);
    } else {
        let head = before.drop_last();
        assert(before =~= head.push('\n'));
        assert(before + blank.push('\n') + after =~= head.push('\n') + (blank.push('\n') + after));
        lemma_lines_join(head, blank.push('\n') + after);
        lemma_lines_join(head, after);
    }
}

/// A line of white space put after the last line adds no line that counts.
pub proof fn lemma_append_blank_line(text: Seq<char>, blank: Seq<char>)
    requires
        all_in(blank, CharClass::Whitespace),
    ensures
        significant_lines(text.push('\n') + blank) == significant_lines(text),
{
    lemma_blank_has_no_lines(blank);
    lemma_lines_join(text, blank);
    assert(significant_lines(text) + significant_lines(blank) =~= significant_lines(text));
}

/// A text of white space alone has no line that counts.
pub proof fn lemma_blank_has_no_lines(w: Seq<char>)
    requires
        all_in(w, CharClass::Whitespace),
    ensures
        significant_lines(w).len() == 0,
{
    let nl = CharClass::Only('\n');
    lemma_pieces_of_blank(w);
    let ps = each_trimmed(pieces(w, nl));
    assert forall|i: int| 0 <= i < ps.len() implies (#[trigger] ps[i]).len() == 0 by {
        lemma_trimmed_blank(pieces(w, nl)[i], CharClass::Whitespace);
    }
    lemma_non_empty_of_empties(ps);
}

/// The lines of a text of white space are themselves white space.
proof fn lemma_pieces_of_blank(w: Seq<char>)
    requires
        all_in(w, CharClass::Whitespace),
    ensures
        forall|i: int|
            0 <= i < pieces(w, CharClass::Only('\n')).len() ==> all_in(
                #[trigger] pieces(w, CharClass::Only('\n'))[i],
                CharClass::Whitespace,
            ),
    decreases w.len(),
{
    let nl = CharClass::Only('\n');
    if w.len() > 0 {
        lemma_pieces_of_blank(w.drop_last());
        lemma_pieces_nonempty(w.drop_last(), nl);
        assert(is_space(w.last()));
    }
}

/// Nothing is left of a sequence of empty texts.
proof fn lemma_non_empty_of_empties(items: Seq<Seq<char>>)
    requires
        forall|i: int| 0 <= i < items.len() ==> (#[trigger] items[i]).len() == 0,
    ensures
        non_empty(items).len() == 0,
    decreases items.len(),
{
    if items.len() > 0 {
        lemma_non_empty_of_empties(items.drop_last());
    }
}

/// Splits `text` into the lines that hold more than white space, trimmed.
pub fn split_lines<'a>(text: &'a [char]) -> (out: Vec<&'a [char]>)
    ensures
        views(out@) == significant_lines(text@),
{
    let raw = split(text, CharClass::Only('\n'));
    let mut out: Vec<&'a [char]> = Vec::new();
    let mut i: usize = 0;
    assert(each_trimmed(views(raw@).take(0)) =~= Seq::<Seq<char>>::empty());
    assert(views(out@) =~= Seq::<Seq<char>>::empty());
    while i < raw.len()
        invariant
            i <= raw.len(),
            views(out@) == non_empty(each_trimmed(views(raw@).take(i as int))),
        decreases raw.len() - i,
    {
        let line = trim(raw[i], CharClass::Whitespace);
        proof {
            assert(each_trimmed(views(raw@).take(i + 1)).drop_last() =~= each_trimmed(
                views(raw@).take(i as int),
            ));
            assert(each_trimmed(views(raw@).take(i + 1)).last() == line@);
            lemma_views_push(out@, line);
        }
        if line.len() > 0 {
            out.push(line);
        }
        i = i + 1;
    }
    assert(views(raw@).take(i as int) =~= views(raw@));
    out
}

/// `lines` without the first `n`, which are captions; nothing where there
/// are no more than captions.
pub open spec fn below_captions(lines: Seq<Seq<char>>, n: int) -> Seq<Seq<char>> {
    if n <= lines.len() {
        lines.skip(n)
    } else {
        Seq::empty()
    }
}

/// Whether `phrase` stands in `s` at position `i`.
pub open spec fn occurs_at(s: Seq<char>, phrase: Seq<char>, i: int) -> bool {
    0 <= i && i + phrase.len() <= s.len() && s.subrange(i, i + phrase.len()) == phrase
}

/// Whether `phrase` stands somewhere in `s`.
pub open spec fn contains(s: Seq<char>, phrase: Seq<char>) -> bool {
    exists|i: int| occurs_at(s, phrase, i)
}

/// Whether the characters of `s` from `at` on begin with `phrase`.
fn starts_at(s: &[char], phrase: &[char], at: usize) -> (b: bool)
    requires
        at + phrase.len() <= s.len(),
    ensures
        b == occurs_at(s@, phrase@, at as int),
{
    let mut k: usize = 0;
    while k < phrase.len()
        invariant
            k <= phrase.len(),
            at + phrase.len() <= s.len(),
            s@.subrange(at as int, at + k) == phrase@.take(k as int),
        decreases phrase.len() - k,
    {
        if s[at + k] != phrase[k] {
            proof {
                assert(s@.subrange(at as int, at + phrase@.len())[k as int] == s@[at + k]);
            }
            return false;
        }
        proof {
            assert(s@.subrange(at as int, at + k + 1) =~= s@.subrange(at as int, at + k).push(
                s@[at + k],
            ));
            assert(phrase@.take(k + 1) =~= phrase@.take(k as int).push(phrase@[k as int]));
        }
        k = k + 1;
    }
    assert(phrase@.take(k as int) =~= phrase@);
    true
}

/// Searches `s` for `phrase`.
pub fn holds_phrase(s: &[char], phrase: &[char]) -> (b: bool)
    ensures
        b == contains(s@, phrase@),
{
    if phrase.len() > s.len() {
        return false;
    }
    let last: usize = s.len() - phrase.len();
    let mut i: usize = 0;
    while i < last
        invariant
            i <= last,
            last + phrase.len() == s.len(),
            forall|j: int| 0 <= j < i ==> !occurs_at(s@, phrase@, j),
        decreases last - i,
    {
        if starts_at(s, phrase, i) {
            return true;
        }
        i = i + 1;
    }
    starts_at(s, phrase, last)
}

/// Compares two slices character by character.
pub fn same_text(a: &[char], b: &[char]) -> (same: bool)
    ensures
        same == (a@ == b@),
{
    if a.len() != b.len() {
        return false;
    }
    let same = starts_at(a, b, 0);
    proof {
        assert(a@.subrange(0, b@.len() as int) =~= a@);
    }
    same
}

/// Compares a slice with a text character by character.
pub fn is_word(token: &[char], word: &str) -> (same: bool)
    ensures
        same == (token@ == word@),
{
    let mut i: usize = 0;
    for c in it: word.chars()
        invariant
            i == it.index(),
            it.seq() == word@,
            i <= token.len(),
            token@.take(i as int) == word@.take(i as int),
    {
        if i >= token.len() {
            return false;
        }
        if token[i] != c {
            assert(it.seq()[i as int] == c);
            return false;
        }
        proof {
            assert(token@.take(i + 1) =~= token@.take(i as int).push(token@[i as int]));
            assert(word@.take(i + 1) =~= word@.take(i as int).push(word@[i as int]));
        }
        i = i + 1;
    }
    proof {
        assert(word@.take(i as int) =~= word@);
        if i == token.len() {
            assert(token@.take(i as int) =~= token@);
        }
    }
    i == token.len()
}

/// std's `String::push`: the string afterwards is the string before with
/// `ch` appended, as its documentation says. Verus takes this on trust.
pub assume_specification[ String::push ](s: &mut String, ch: char)
    ensures
        final(s)@ == old(s)@.push(ch),
;

/// Appends the characters of `s` to `out`.
pub fn append_chars(out: &mut String, s: &[char])
    ensures
        final(out)@ == old(out)@ + s@,
{
    let mut i: usize = 0;
    assert(out@ + s@.take(0) =~= out@);
    while i < s.len()
        invariant
            i <= s.len(),
            out@ == old(out)@ + s@.take(i as int),
        decreases s.len() - i,
    {
        proof {
            assert((old(out)@ + s@.take(i as int)).push(s@[i as int]) =~= old(out)@ + s@.take(
                i + 1,
            ));
        }
        out.push(s[i]);
        i = i + 1;
    }
    assert(s@.take(i as int) =~= s@);
}

/// A string that holds the characters of `s`.
pub fn string_of(s: &[char]) -> (out: String)
    ensures
        out@ == s@,
{
    let mut out = String::new();
    append_chars(&mut out, s);
    assert(Seq::<char>::empty() + s@ =~= s@);
    out
}

/// The characters of `s`, in order.
pub fn chars_of(s: &str) -> (out: Vec<char>)
    ensures
        out@ == s@,
{
    let mut out: Vec<char> = Vec::new();
    for c in it: s.chars()
        invariant
            out@ == it.seq().take(it.index()),
            it.seq() == s@,
    {
        out.push(c);
    }
    out
}

} // verus!
