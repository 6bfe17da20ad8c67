//! The statistics report parser.
//!
//! The report is read line by line. A line that begins with the caption of
//! a counter and ends with its numerals sets that counter; which record a
//! caption belongs to may depend on the section heading that came last.
//! Lines that say nothing the parser knows are passed over; a known caption
//! with a malformed numeral fails the whole parse.

use vstd::prelude::*;
use crate::grammar::{
    addressed, lemma_label_carried, route_counter, route_pair, section_after, Grammar, Label,
    Section, Target,
};
use crate::numeral::{decimal, numeral, parse_u64, unsigned_part};
use crate::report::{Counter, NetworkData, NetworkStatistics, Pair};
use crate::text::{
    all_in, chars_of, lemma_append_blank_line, lemma_blank_has_no_lines,
    lemma_insert_blank_line, significant_lines, split_lines, split_words, views, words,
    CharClass,
};

verus! {

/// Why a statistics report could not be read.
#[derive(Clone, Copy, Debug, PartialEq, Eq)]
pub enum ParseError {
    /// A line with a known caption holds a numeral that is no unsigned
    /// 64-bit number. `line` counts the lines that hold text, from zero.
    InvalidNumber { line: usize },
}

/// Whether a line of the words `tokens` sets a place when `section` is in
/// force but holds a word, where a numeral belongs, that is none.
pub open spec fn faulty(tokens: Seq<Seq<char>>, section: Section) -> bool {
    match addressed(tokens, section) {
        Some(Target::Pair(_)) => numeral(tokens[tokens.len() - 2]) is None || numeral(
            tokens.last(),
        ) is None,
        Some(Target::Counter(_)) => numeral(tokens.last()) is None,
        None => false,
    }
}

/// The pair that the last two words of `tokens` write.
pub open spec fn pair_read(tokens: Seq<Seq<char>>) -> NetworkData {
    NetworkData {
        received: numeral(tokens[tokens.len() - 2]).unwrap(),
        sent: numeral(tokens.last()).unwrap(),
    }
}

/// The number that the last word of `tokens` writes.
pub open spec fn counter_read(tokens: Seq<Seq<char>>) -> u64 {
    numeral(tokens.last()).unwrap()
}

/// The section in force after the first `n` of `lines`.
pub open spec fn section_at(lines: Seq<Seq<char>>, n: int) -> Section
    decreases n,
{
    if n <= 0 {
        Section::Interface
    } else {
        section_after(section_at(lines, n - 1), lines[n - 1])
    }
}

/// The place that line `i` of `lines` sets, if it sets one.
pub open spec fn target_at(lines: Seq<Seq<char>>, i: int) -> Option<Target> {
    addressed(words(lines[i]), section_at(lines, i))
}

/// Whether line `i` of `lines` sets a place but holds a malformed numeral.
pub open spec fn fault_at(lines: Seq<Seq<char>>, i: int) -> bool {
    faulty(words(lines[i]), section_at(lines, i))
}

/// The first faulty line among the first `n` of `lines`, if there is one.
pub open spec fn first_fault(lines: Seq<Seq<char>>, n: int) -> Option<int>
    decreases n,
{
    if n <= 0 {
        None
    } else {
        match first_fault(lines, n - 1) {
            Some(i) => Some(i),
            None => if fault_at(lines, n - 1) {
                Some(n - 1)
            } else {
                None
            },
        }
    }
}

/// The value of `counter` after the first `n` of `lines`: what the last of
/// them that sets it writes, or zero where none does.
pub open spec fn counter_after(lines: Seq<Seq<char>>, counter: Counter, n: int) -> u64
    decreases n,
{
    if n <= 0 {
        0
    } else if target_at(lines, n - 1) == Some(Target::Counter(counter)) {
        counter_read(words(lines[n - 1]))
    } else {
        counter_after(lines, counter, n - 1)
    }
}

/// The value of `pair` after the first `n` of `lines`: what the last of
/// them that sets it writes, or two zeros where none does.
pub open spec fn pair_after(lines: Seq<Seq<char>>, pair: Pair, n: int) -> NetworkData
    decreases n,
{
    if n <= 0 {
        NetworkData::zero()
    } else if target_at(lines, n - 1) == Some(Target::Pair(pair)) {
        pair_read(words(lines[n - 1]))
    } else {
        pair_after(lines, pair, n - 1)
    }
}

/// The report that `lines` describe, provided none of them is faulty.
pub open spec fn report_of(lines: Seq<Seq<char>>) -> NetworkStatistics {
    NetworkStatistics::assemble(
        |counter: Counter| counter_after(lines, counter, lines.len() as int),
        |pair: Pair| pair_after(lines, pair, lines.len() as int),
    )
}

/// What parsing the lines gives: the report that they describe, or the
/// position of the first faulty line.
pub open spec fn outcome_of(lines: Seq<Seq<char>>) -> Result<NetworkStatistics, ParseError> {
    match first_fault(lines, lines.len() as int) {
        Some(i) => Err(ParseError::InvalidNumber { line: i as usize }),
        None => Ok(report_of(lines)),
    }
}

/// What parsing `text` gives.
pub open spec fn outcome(text: Seq<char>) -> Result<NetworkStatistics, ParseError> {
    outcome_of(significant_lines(text))
}

/// A fault among the first lines is the first fault of any longer run.
pub proof fn lemma_first_fault_stays(lines: Seq<Seq<char>>, n: int, m: int)
    requires
        n <= m,
        first_fault(lines, n) is Some,
    ensures
        first_fault(lines, m) == first_fault(lines, n),
    decreases m - n,
{
    if n < m {
        lemma_first_fault_stays(lines, n, m - 1);
    }
}

/// While no fault is found, no line is faulty.
pub proof fn lemma_no_fault(lines: Seq<Seq<char>>, n: int, i: int)
    requires
        first_fault(lines, n) is None,
        0 <= i < n,
    ensures
        !fault_at(lines, i),
    decreases n,
{
    if i < n - 1 {
        lemma_no_fault(lines, n - 1, i);
    }
}

/// What `first_fault` finds is a faulty line among those it searched, and
/// no line before it is faulty.
pub proof fn lemma_first_fault_is_first(lines: Seq<Seq<char>>, n: int)
    requires
        first_fault(lines, n) is Some,
    ensures
        0 <= first_fault(lines, n).unwrap() < n,
        fault_at(lines, first_fault(lines, n).unwrap()),
        forall|j: int| 0 <= j < first_fault(lines, n).unwrap() ==> !fault_at(lines, j),
    decreases n,
{
    if n > 0 {
        if first_fault(lines, n - 1) is Some {
            lemma_first_fault_is_first(lines, n - 1);
        } else {
            assert forall|j: int| 0 <= j < n - 1 implies !fault_at(lines, j) by {
                lemma_no_fault(lines, n - 1, j);
            }
        }
    }
}

/// A statistics report fails to parse exactly when one of its lines sets a
/// place of the report but holds a malformed numeral; there is then no
/// report at all.
pub proof fn lemma_fails_iff_faulty_line(text: Seq<char>)
    ensures
        outcome(text) is Err <==> exists|i: int|
            0 <= i < significant_lines(text).len() && fault_at(significant_lines(text), i),
{
    let lines = significant_lines(text);
    let n = lines.len() as int;
    if first_fault(lines, n) is Some {
        lemma_first_fault_is_first(lines, n);
    } else {
        assert forall|i: int| 0 <= i < n implies !fault_at(lines, i) by {
            lemma_no_fault(lines, n, i);
        }
    }
}

/// After a line that sets `counter`, and as long as no later line sets it,
/// the counter holds what that line writes.
pub proof fn lemma_counter_kept(lines: Seq<Seq<char>>, counter: Counter, i: int, n: int)
    requires
        0 <= i < n,
        target_at(lines, i) == Some(Target::Counter(counter)),
        forall|j: int| i < j < n ==> target_at(lines, j) != Some(Target::Counter(counter)),
    ensures
        counter_after(lines, counter, n) == counter_read(words(lines[i])),
    decreases n,
{
    if i < n - 1 {
        lemma_counter_kept(lines, counter, i, n - 1);
    }
}

/// After a line that sets `pair`, and as long as no later line sets it, the
/// pair holds what that line writes.
pub proof fn lemma_pair_kept(lines: Seq<Seq<char>>, pair: Pair, i: int, n: int)
    requires
        0 <= i < n,
        target_at(lines, i) == Some(Target::Pair(pair)),
        forall|j: int| i < j < n ==> target_at(lines, j) != Some(Target::Pair(pair)),
    ensures
        pair_after(lines, pair, n) == pair_read(words(lines[i])),
    decreases n,
{
    if i < n - 1 {
        lemma_pair_kept(lines, pair, i, n - 1);
    }
}

/// A counter that none of the first `n` lines sets is zero after them.
pub proof fn lemma_counter_untouched(lines: Seq<Seq<char>>, counter: Counter, n: int)
    requires
        forall|j: int| 0 <= j < n ==> target_at(lines, j) != Some(Target::Counter(counter)),
    ensures
        counter_after(lines, counter, n) == 0,
    decreases n,
{
    if n > 0 {
        lemma_counter_untouched(lines, counter, n - 1);
    }
}

/// A pair that none of the first `n` lines sets is two zeros after them.
pub proof fn lemma_pair_untouched(lines: Seq<Seq<char>>, pair: Pair, n: int)
    requires
        forall|j: int| 0 <= j < n ==> target_at(lines, j) != Some(Target::Pair(pair)),
    ensures
        pair_after(lines, pair, n) == NetworkData::zero(),
    decreases n,
{
    if n > 0 {
        lemma_pair_untouched(lines, pair, n - 1);
    }
}

/// In the report of a text that parses, a counter that exactly one line
/// sets holds the number that the numeral of that line writes, digit for
/// digit.
pub proof fn lemma_sole_line_gives_counter(text: Seq<char>, i: int, counter: Counter)
    requires
        outcome(text) is Ok,
        0 <= i < significant_lines(text).len(),
        target_at(significant_lines(text), i) == Some(Target::Counter(counter)),
        forall|j: int|
            0 <= j < significant_lines(text).len() && j != i ==> target_at(
                significant_lines(text),
                j,
            ) != Some(Target::Counter(counter)),
    ensures
        ({
            let written = words(significant_lines(text)[i]).last();
            let value = outcome(text).unwrap().counter(counter);
            &&& numeral(written) == Some(value)
            &&& value == decimal(unsigned_part(written))
        }),
{
    let lines = significant_lines(text);
    let n = lines.len() as int;
    lemma_no_fault(lines, n, i);
    lemma_counter_kept(lines, counter, i, n);
    NetworkStatistics::lemma_assemble_reads(
        |c: Counter| counter_after(lines, c, lines.len() as int),
        |p: Pair| pair_after(lines, p, lines.len() as int),
    );
}

/// In the report of a text that parses, a pair that exactly one line sets
/// holds the two numbers that the numerals of that line write, received
/// first, digit for digit.
pub proof fn lemma_sole_line_gives_pair(text: Seq<char>, i: int, pair: Pair)
    requires
        outcome(text) is Ok,
        0 <= i < significant_lines(text).len(),
        target_at(significant_lines(text), i) == Some(Target::Pair(pair)),
        forall|j: int|
            0 <= j < significant_lines(text).len() && j != i ==> target_at(
                significant_lines(text),
                j,
            ) != Some(Target::Pair(pair)),
    ensures
        ({
            let tokens = words(significant_lines(text)[i]);
            let value = outcome(text).unwrap().pair(pair);
            &&& numeral(tokens[tokens.len() - 2]) == Some(value.received)
            &&& numeral(tokens.last()) == Some(value.sent)
            &&& value.received == decimal(unsigned_part(tokens[tokens.len() - 2]))
            &&& value.sent == decimal(unsigned_part(tokens.last()))
        }),
{
    let lines = significant_lines(text);
    let n = lines.len() as int;
    lemma_no_fault(lines, n, i);
    lemma_pair_kept(lines, pair, i, n);
    NetworkStatistics::lemma_assemble_reads(
        |c: Counter| counter_after(lines, c, lines.len() as int),
        |p: Pair| pair_after(lines, p, lines.len() as int),
    );
}

/// In the report of a text that parses, a counter that no line sets is
/// zero.
pub proof fn lemma_unset_counter_is_zero(text: Seq<char>, counter: Counter)
    requires
        outcome(text) is Ok,
        forall|j: int|
            0 <= j < significant_lines(text).len() ==> target_at(significant_lines(text), j)
                != Some(Target::Counter(counter)),
    ensures
        outcome(text).unwrap().counter(counter) == 0,
{
    let lines = significant_lines(text);
    lemma_counter_untouched(lines, counter, lines.len() as int);
    NetworkStatistics::lemma_assemble_reads(
        |c: Counter| counter_after(lines, c, lines.len() as int),
        |p: Pair| pair_after(lines, p, lines.len() as int),
    );
}

/// In the report of a text that parses, a pair that no line sets is two
/// zeros.
pub proof fn lemma_unset_pair_is_zero(text: Seq<char>, pair: Pair)
    requires
        outcome(text) is Ok,
        forall|j: int|
            0 <= j < significant_lines(text).len() ==> target_at(significant_lines(text), j)
                != Some(Target::Pair(pair)),
    ensures
        outcome(text).unwrap().pair(pair) == NetworkData::zero(),
{
    let lines = significant_lines(text);
    lemma_pair_untouched(lines, pair, lines.len() as int);
    NetworkStatistics::lemma_assemble_reads(
        |c: Counter| counter_after(lines, c, lines.len() as int),
        |p: Pair| pair_after(lines, p, lines.len() as int),
    );
}

/// A text of white space alone, the empty text among them, parses to the
/// report in which nothing has been counted.
pub proof fn lemma_blank_text_gives_zero(text: Seq<char>)
    requires
        all_in(text, CharClass::Whitespace),
    ensures
        outcome(text) == Ok::<NetworkStatistics, ParseError>(NetworkStatistics::zero()),
{
    lemma_blank_has_no_lines(text);
    let lines = significant_lines(text);
    let counters = |c: Counter| counter_after(lines, c, lines.len() as int);
    let pairs = |p: Pair| pair_after(lines, p, lines.len() as int);
    assert(counters =~= (|c: Counter| 0u64));
    assert(pairs =~= (|p: Pair| NetworkData::zero()));
}

/// A line of white space put in front of a line of the text, be it a
/// heading or any other, changes nothing: the lines that count stay the
/// same, and with them the section in which each is read and the outcome.
pub proof fn lemma_blank_line_before(before: Seq<char>, blank: Seq<char>, after: Seq<char>)
    requires
        before.len() == 0 || before.last() == '\n',
        all_in(blank, CharClass::Whitespace),
    ensures
        significant_lines(before + blank.push('\n') + after) == significant_lines(before + after),
        forall|i: int|
            section_at(significant_lines(before + blank.push('\n') + after), i) == section_at(
                significant_lines(before + after),
                i,
            ),
        outcome(before + blank.push('\n') + after) == outcome(before + after),
{
    lemma_insert_blank_line(before, blank, after);
}

/// A line of white space put after the last line of the text changes
/// nothing either.
pub proof fn lemma_blank_line_at_end(text: Seq<char>, blank: Seq<char>)
    requires
        all_in(blank, CharClass::Whitespace),
    ensures
        significant_lines(text.push('\n') + blank) == significant_lines(text),
        outcome(text.push('\n') + blank) == outcome(text),
{
    lemma_append_blank_line(text, blank);
}

/// What one line asks of the report.
enum Step {
    /// Nothing: the line sets no place.
    Pass,
    /// Store the pair.
    StorePair(Pair, NetworkData),
    /// Store the counter.
    StoreCounter(Counter, u64),
    /// Give up: a numeral is malformed.
    Fault,
}

impl Step {
    /// The step that a line of the words `tokens` asks for when `section`
    /// is in force.
    spec fn of(tokens: Seq<Seq<char>>, section: Section) -> Step {
        match addressed(tokens, section) {
            None => Step::Pass,
            Some(target) => if faulty(tokens, section) {
                Step::Fault
            } else {
                match target {
                    Target::Pair(pair) => Step::StorePair(pair, pair_read(tokens)),
                    Target::Counter(counter) => Step::StoreCounter(counter, counter_read(tokens)),
                }
            },
        }
    }
}

/// Reads one line.
fn read_line(grammar: &Grammar, tokens: &Vec<&[char]>, section: Section) -> (step: Step)
    requires
        grammar.wf(),
    ensures
        step == Step::of(views(tokens@), section),
{
    let ghost words = views(tokens@);
    match grammar.label_of(tokens) {
        None => Step::Pass,
        Some(Label::Pair(label)) => match route_pair(label, section) {
            None => Step::Pass,
            Some(pair) => {
                proof {
                    lemma_label_carried(words, 0);
                }
                let n = tokens.len();
                assert(words[n - 2] == tokens@[n - 2]@);
                assert(words.last() == tokens@[n - 1]@);
                match (parse_u64(tokens[n - 2]), parse_u64(tokens[n - 1])) {
                    (Some(received), Some(sent)) => Step::StorePair(
                        pair,
                        NetworkData { received, sent },
                    ),
                    _ => Step::Fault,
                }
            },
        },
        Some(Label::Counter(label)) => match route_counter(label, section) {
            None => Step::Pass,
            Some(counter) => {
                proof {
                    lemma_label_carried(words, 0);
                }
                let n = tokens.len();
                assert(words.last() == tokens@[n - 1]@);
                match parse_u64(tokens[n - 1]) {
                    Some(value) => Step::StoreCounter(counter, value),
                    None => Step::Fault,
                }
            },
        },
    }
}

/// Reads a statistics report.
///
/// The report of a text without faulty lines holds, in every counter, what
/// the last line that sets the counter writes, and zero where no line sets
/// it. A text with a faulty line gives the position of the first one.
pub fn parse_stats(input: &str) -> (result: Result<NetworkStatistics, ParseError>)
    ensures
        result == outcome(input@),
{
    let text = chars_of(input);
    let lines = split_lines(text.as_slice());
    let grammar = Grammar::new();
    let mut stats = NetworkStatistics::new();
    let mut section = Section::Interface;
    let ghost all = views(lines@);
    let mut i: usize = 0;
    while i < lines.len()
        invariant
            grammar.wf(),
            i <= lines.len(),
            all == views(lines@),
            all == significant_lines(input@),
            section == section_at(all, i as int),
            first_fault(all, i as int) is None,
            forall|c: Counter| #[trigger] stats.counter(c) == counter_after(all, c, i as int),
            forall|p: Pair| #[trigger] stats.pair(p) == pair_after(all, p, i as int),
        decreases lines.len() - i,
    {
        let line = lines[i];
        let tokens = split_words(line);
        assert(all[i as int] == line@);
        match read_line(&grammar, &tokens, section) {
            Step::Pass => {},
            Step::StorePair(pair, value) => {
                stats.set_pair(pair, value);
            },
            Step::StoreCounter(counter, value) => {
                stats.set_counter(counter, value);
            },
            Step::Fault => {
                proof {
                    assert(fault_at(all, i as int));
                    lemma_first_fault_stays(all, i + 1, all.len() as int);
                }
                return Err(ParseError::InvalidNumber { line: i });
            },
        }
        match grammar.heading_of(line) {
            Some(next) => {
                section = next;
            },
            None => {},
        }
        i = i + 1;
    }
    proof {
        stats.lemma_same_fields(report_of(all));
    }
    Ok(stats)
}

} // verus!
