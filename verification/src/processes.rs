//! The process listing, in either of the two layouts in which it is printed:
//! fields in quotes with commas between them, or columns with white space
//! between them. The caller knows which layout a text has and calls the
//! parser for it. In both, a row whose process id is no number is passed
//! over.

use vstd::prelude::*;
use crate::numeral::{numeral, parse_u64};
use crate::text::{
    append_chars, below_captions, chars_of, is_space, lemma_lines_join, lemma_pieces_join,
    lemma_pieces_nonempty, lemma_pieces_whole, lemma_single_line, lemma_words_of_trimmed,
    none_in, pieces, significant_lines, split, split_lines, split_words, string_of, trim,
    trimmed, trimmed_end, trimmed_start, views, words, CharClass,
};

verus! {

/// One process. The session number is read from the quoted layout only; a
/// record from the column layout has none.
#[derive(Clone, Debug, PartialEq, Eq)]
pub struct Process {
    pub image_name: String,
    pub pid: String,
    pub session_name: String,
    pub session_number: Option<String>,
}

/// A process with its texts as sequences of characters.
pub struct ProcessView {
    pub image_name: Seq<char>,
    pub pid: Seq<char>,
    pub session_name: Seq<char>,
    pub session_number: Option<Seq<char>>,
}

impl View for Process {
    type V = ProcessView;

    open spec fn view(&self) -> ProcessView {
        ProcessView {
            image_name: self.image_name@,
            pid: self.pid@,
            session_name: self.session_name@,
            session_number: match self.session_number {
                Some(number) => Some(number@),
                None => None,
            },
        }
    }
}

/// The views of `items`, in order.
pub open spec fn process_views(items: Seq<Process>) -> Seq<ProcessView> {
    Seq::new(items.len(), |i: int| items[i]@)
}

/// `field` without the quotation marks around it.
pub open spec fn unquoted(field: Seq<char>) -> Seq<char> {
    trimmed(field, CharClass::Only('"'))
}

/// Whether `word` is a number.
pub open spec fn numeric(word: Seq<char>) -> bool {
    numeral(word) is Some
}

/// The process that a line of the quoted layout describes: its first four
/// fields, provided it has at least four and the second, the process id,
/// is a number. What follows the fourth field is not read.
pub open spec fn quoted_record(line: Seq<char>) -> Option<ProcessView> {
    let fields = pieces(line, CharClass::Only(','));
    if fields.len() >= 4 && numeric(unquoted(fields[1])) {
        Some(
            ProcessView {
                image_name: unquoted(fields[0]),
                pid: unquoted(fields[1]),
                session_name: unquoted(fields[2]),
                session_number: Some(unquoted(fields[3])),
            },
        )
    } else {
        None
    }
}

/// `field` between two quotation marks.
pub open spec fn quoted(field: Seq<char>) -> Seq<char> {
    seq!['"'] + field + seq!['"']
}

/// Whether `field` can stand between quotation marks in a line and be read
/// back: it holds no comma and neither begins nor ends with a quotation
/// mark.
pub open spec fn plain(field: Seq<char>) -> bool {
    &&& none_in(field, CharClass::Only(','))
    &&& field.len() > 0 ==> field[0] != '"' && field.last() != '"'
}

/// Taking the quotation marks from a plain field put between them gives
/// the field back.
pub proof fn lemma_unquoted_quoted(field: Seq<char>)
    requires
        plain(field),
    ensures
        unquoted(quoted(field)) == field,
{
    let quote = CharClass::Only('"');
    let whole = quoted(field);
    assert(whole.skip(1) =~= field + seq!['"']);
    if field.len() == 0 {
        assert((field + seq!['"']).skip(1) =~= Seq::<char>::empty());
        assert(trimmed_start(whole, quote) =~= Seq::<char>::empty()) by {
            reveal_with_fuel(trimmed_start, 3);
        }
    } else {
        assert((field + seq!['"'])[0] == field[0]);
        assert(trimmed_start(whole, quote) == field + seq!['"']) by {
            reveal_with_fuel(trimmed_start, 2);
        }
        assert((field + seq!['"']).drop_last() =~= field);
        assert(trimmed_end(field + seq!['"'], quote) == field) by {
            reveal_with_fuel(trimmed_end, 2);
        }
    }
}

/// A line made of four plain fields between quotation marks, with commas
/// between them, the second of them a number, gives the process with these
/// four fields.
pub proof fn lemma_quoted_row(
    image_name: Seq<char>,
    pid: Seq<char>,
    session_name: Seq<char>,
    session_number: Seq<char>,
)
    requires
        plain(image_name),
        plain(pid),
        plain(session_name),
        plain(session_number),
        numeric(pid),
    ensures
        quoted_record(
            quoted(image_name).push(',') + (quoted(pid).push(',') + (quoted(session_name).push(
                ',',
            ) + quoted(session_number))),
        ) == Some(
            ProcessView { image_name, pid, session_name, session_number: Some(session_number) },
        ),
{
    let comma = CharClass::Only(',');
    let tail2 = quoted(session_name).push(',') + quoted(session_number);
    let tail1 = quoted(pid).push(',') + tail2;
    let line = quoted(image_name).push(',') + tail1;
    lemma_pieces_join(quoted(image_name), ',', tail1, comma);
    lemma_pieces_join(quoted(pid), ',', tail2, comma);
    lemma_pieces_join(quoted(session_name), ',', quoted(session_number), comma);
    lemma_pieces_whole(quoted(image_name), comma);
    lemma_pieces_whole(quoted(pid), comma);
    lemma_pieces_whole(quoted(session_name), comma);
    lemma_pieces_whole(quoted(session_number), comma);
    lemma_unquoted_quoted(image_name);
    lemma_unquoted_quoted(pid);
    lemma_unquoted_quoted(session_name);
    lemma_unquoted_quoted(session_number);
    let fields = pieces(line, comma);
    assert(fields =~= seq![
        quoted(image_name),
        quoted(pid),
        quoted(session_name),
        quoted(session_number),
    ]);
}

/// A line made of four plain fields between quotation marks, with commas
/// between them, the second of them a number, and of a comma and anything
/// more behind the fourth, gives the process with these four fields all
/// the same.
pub proof fn lemma_quoted_row_with_more(
    image_name: Seq<char>,
    pid: Seq<char>,
    session_name: Seq<char>,
    session_number: Seq<char>,
    rest: Seq<char>,
)
    requires
        plain(image_name),
        plain(pid),
        plain(session_name),
        plain(session_number),
        numeric(pid),
    ensures
        quoted_record(
            quoted(image_name).push(',') + (quoted(pid).push(',') + (quoted(session_name).push(
                ',',
            ) + (quoted(session_number).push(',') + rest))),
        ) == Some(
            ProcessView { image_name, pid, session_name, session_number: Some(session_number) },
        ),
{
    let comma = CharClass::Only(',');
    let tail3 = quoted(session_number).push(',') + rest;
    let tail2 = quoted(session_name).push(',') + tail3;
    let tail1 = quoted(pid).push(',') + tail2;
    let line = quoted(image_name).push(',') + tail1;
    lemma_pieces_join(quoted(image_name), ',', tail1, comma);
    lemma_pieces_join(quoted(pid), ',', tail2, comma);
    lemma_pieces_join(quoted(session_name), ',', tail3, comma);
    lemma_pieces_join(quoted(session_number), ',', rest, comma);
    lemma_pieces_whole(quoted(image_name), comma);
    lemma_pieces_whole(quoted(pid), comma);
    lemma_pieces_whole(quoted(session_name), comma);
    lemma_pieces_whole(quoted(session_number), comma);
    lemma_pieces_nonempty(rest, comma);
    lemma_unquoted_quoted(image_name);
    lemma_unquoted_quoted(pid);
    lemma_unquoted_quoted(session_name);
    lemma_unquoted_quoted(session_number);
    let fields = pieces(line, comma);
    assert(fields =~= seq![
        quoted(image_name),
        quoted(pid),
        quoted(session_name),
        quoted(session_number),
    ] + pieces(rest, comma));
}

/// A line of fewer than four fields gives no process.
pub proof fn lemma_short_line_is_dropped(line: Seq<char>)
    requires
        pieces(line, CharClass::Only(',')).len() < 4,
    ensures
        quoted_record(line) is None,
{
}

/// A line whose second field, the process id, is no number gives no
/// process, whatever else it holds.
pub proof fn lemma_bad_pid_drops_line(line: Seq<char>)
    requires
        pieces(line, CharClass::Only(',')).len() >= 2,
        !numeric(unquoted(pieces(line, CharClass::Only(','))[1])),
    ensures
        quoted_record(line) is None,
{
}

/// The processes that `lines` of the quoted layout describe, in order; a
/// line that describes none is passed over.
pub open spec fn quoted_records(lines: Seq<Seq<char>>) -> Seq<ProcessView>
    decreases lines.len(),
{
    if lines.len() == 0 {
        Seq::empty()
    } else {
        match quoted_record(lines.last()) {
            Some(process) => quoted_records(lines.drop_last()).push(process),
            None => quoted_records(lines.drop_last()),
        }
    }
}

/// Every line is read by itself: the processes of two runs of lines, one
/// after the other, are those of the first followed by those of the second.
pub proof fn lemma_quoted_records_concat(a: Seq<Seq<char>>, b: Seq<Seq<char>>)
    ensures
        quoted_records(a + b) == quoted_records(a) + quoted_records(b),
    decreases b.len(),
{
    if b.len() == 0 {
        assert(a + b =~= a);
        assert(quoted_records(a) + quoted_records(b) =~= quoted_records(a));
    } else {
        assert((a + b).drop_last() =~= a + b.drop_last());
        assert((a + b).last() == b.last());
        lemma_quoted_records_concat(a, b.drop_last());
        match quoted_record(b.last()) {
            Some(process) => {
                assert((quoted_records(a) + quoted_records(b.drop_last())).push(process)
                    =~= quoted_records(a) + quoted_records(b.drop_last()).push(process));
            },
            None => {},
        }
    }
}

/// The processes that a listing in the quoted layout holds. Its first line
/// that holds text is a caption.
pub open spec fn processes_in(text: Seq<char>) -> Seq<ProcessView> {
    quoted_records(below_captions(significant_lines(text), 1))
}

/// Every process of a listing in the quoted layout has a number for its
/// process id: a line whose id field holds anything else leaves no record.
pub proof fn lemma_listing_pids_numeric(text: Seq<char>)
    ensures
        forall|i: int|
            0 <= i < processes_in(text).len() ==> numeric((#[trigger] processes_in(text)[i]).pid),
{
    lemma_quoted_pids_numeric(below_captions(significant_lines(text), 1));
}

/// Every process read from lines of the quoted layout has a number for its
/// process id.
pub proof fn lemma_quoted_pids_numeric(lines: Seq<Seq<char>>)
    ensures
        forall|i: int|
            0 <= i < quoted_records(lines).len() ==> numeric(
                (#[trigger] quoted_records(lines)[i]).pid,
            ),
    decreases lines.len(),
{
    if lines.len() > 0 {
        lemma_quoted_pids_numeric(lines.drop_last());
    }
}

/// A line that describes no process can be taken out of a listing in the
/// quoted layout: the records of the other lines stay the same, in the
/// same order. The line stands below the caption and holds no line feed.
pub proof fn lemma_dropped_line_changes_nothing(
    before: Seq<char>,
    row: Seq<char>,
    after: Seq<char>,
)
    requires
        significant_lines(before).len() >= 1,
        none_in(row, CharClass::Only('\n')),
        quoted_record(trimmed(row, CharClass::Whitespace)) is None,
    ensures
        processes_in(before.push('\n') + (row.push('\n') + after)) == processes_in(
            before.push('\n') + after,
        ),
{
    let head = significant_lines(before);
    let middle = significant_lines(row);
    let tail = significant_lines(after);
    lemma_lines_join(before, row.push('\n') + after);
    lemma_lines_join(row, after);
    lemma_lines_join(before, after);
    lemma_single_line(row);
    assert(quoted_records(middle) =~= Seq::<ProcessView>::empty()) by {
        reveal_with_fuel(quoted_records, 2);
        if middle.len() > 0 {
            assert(middle.drop_last() =~= Seq::<Seq<char>>::empty());
        }
    }
    assert(below_captions(head + (middle + tail), 1) =~= head.skip(1) + (middle + tail));
    assert(below_captions(head + tail, 1) =~= head.skip(1) + tail);
    lemma_quoted_records_concat(head.skip(1), middle + tail);
    lemma_quoted_records_concat(middle, tail);
    lemma_quoted_records_concat(head.skip(1), tail);
    assert(quoted_records(middle) + quoted_records(tail) =~= quoted_records(tail));
}

/// A line whose process id is no number leaves nothing in the listing: it
/// raises no fault, and the records are those of the listing without the
/// line.
pub proof fn lemma_bad_pid_line_changes_nothing(
    before: Seq<char>,
    row: Seq<char>,
    after: Seq<char>,
)
    requires
        significant_lines(before).len() >= 1,
        none_in(row, CharClass::Only('\n')),
        pieces(trimmed(row, CharClass::Whitespace), CharClass::Only(',')).len() >= 2,
        !numeric(
            unquoted(pieces(trimmed(row, CharClass::Whitespace), CharClass::Only(','))[1]),
        ),
    ensures
        processes_in(before.push('\n') + (row.push('\n') + after)) == processes_in(
            before.push('\n') + after,
        ),
{
    lemma_bad_pid_drops_line(trimmed(row, CharClass::Whitespace));
    lemma_dropped_line_changes_nothing(before, row, after);
}

/// A listing made of a caption line and of one more line that describes a
/// process holds that process and no other.
pub proof fn lemma_one_row_listing(caption: Seq<char>, row: Seq<char>, process: ProcessView)
    requires
        none_in(caption, CharClass::Only('\n')),
        trimmed(caption, CharClass::Whitespace).len() > 0,
        none_in(row, CharClass::Only('\n')),
        quoted_record(trimmed(row, CharClass::Whitespace)) == Some(process),
    ensures
        processes_in(caption.push('\n') + row) == seq![process],
{
    let kept = trimmed(row, CharClass::Whitespace);
    assert(kept.len() > 0) by {
        if kept.len() == 0 {
            assert(kept =~= Seq::<char>::empty());
            assert(pieces(kept, CharClass::Only(',')).len() == 1);
        }
    }
    lemma_lines_join(caption, row);
    lemma_single_line(caption);
    lemma_single_line(row);
    let lines = significant_lines(caption.push('\n') + row);
    assert(lines =~= seq![trimmed(caption, CharClass::Whitespace), kept]);
    assert(below_captions(lines, 1) =~= seq![kept]);
    assert(seq![kept].drop_last() =~= Seq::<Seq<char>>::empty());
    reveal_with_fuel(quoted_records, 2);
    assert(Seq::<ProcessView>::empty().push(process) =~= seq![process]);
}

/// A text that neither begins nor ends with white space is itself without
/// the white space around it.
pub proof fn lemma_trimmed_whole(s: Seq<char>)
    requires
        s.len() > 0 ==> !is_space(s[0]) && !is_space(s.last()),
    ensures
        trimmed(s, CharClass::Whitespace) == s,
{
}

fn read_quoted(line: &[char]) -> (process: Option<Process>)
    ensures
        match process {
            Some(p) => quoted_record(line@) == Some(p@),
            None => quoted_record(line@) is None,
        },
{
    let fields = split(line, CharClass::Only(','));
    if fields.len() < 4 {
        return None;
    }
    let ghost all = views(fields@);
    assert(all[0] == fields@[0]@ && all[1] == fields@[1]@ && all[2] == fields@[2]@ && all[3]
        == fields@[3]@);
    let quote = CharClass::Only('"');
    let pid = trim(fields[1], quote);
    if parse_u64(pid).is_none() {
        return None;
    }
    Some(
        Process {
            image_name: string_of(trim(fields[0], quote)),
            pid: string_of(pid),
            session_name: string_of(trim(fields[2], quote)),
            session_number: Some(string_of(trim(fields[3], quote))),
        },
    )
}

/// Reads a process listing in the quoted layout.
pub fn parse_processes(input: &str) -> (processes: Vec<Process>)
    ensures
        process_views(processes@) == processes_in(input@),
{
    let text = chars_of(input);
    let lines = split_lines(text.as_slice());
    let mut processes: Vec<Process> = Vec::new();
    if lines.len() < 1 {
        assert(process_views(processes@) =~= Seq::<ProcessView>::empty());
        return processes;
    }
    let ghost body = views(lines@).skip(1);
    let mut i: usize = 1;
    assert(body.take(0) =~= Seq::<Seq<char>>::empty());
    assert(process_views(processes@) =~= Seq::<ProcessView>::empty());
    while i < lines.len()
        invariant
            1 <= i <= lines.len(),
            body == views(lines@).skip(1),
            process_views(processes@) == quoted_records(body.take(i - 1)),
        decreases lines.len() - i,
    {
        proof {
            assert(body.take(i as int).drop_last() =~= body.take(i - 1));
            assert(body.take(i as int).last() == lines@[i as int]@);
        }
        match read_quoted(lines[i]) {
            Some(process) => {
                proof {
                    assert(process_views(processes@.push(process)) =~= process_views(
                        processes@,
                    ).push(process@));
                }
                processes.push(process);
            },
            None => {},
        }
        i = i + 1;
    }
    assert(body.take(i - 1) =~= body);
    processes
}

/// Whether `word` holds a period, as the name of a program file does.
pub open spec fn dotted(word: Seq<char>) -> bool {
    word.contains('.')
}

/// The position from `from` on of the first word of `tokens` that holds a
/// period; the length of `tokens` if there is none.
pub open spec fn first_dotted(tokens: Seq<Seq<char>>, from: int) -> int
    decreases tokens.len() - from,
{
    if from < 0 || from >= tokens.len() {
        tokens.len() as int
    } else if dotted(tokens[from]) {
        from
    } else {
        first_dotted(tokens, from + 1)
    }
}

/// The position from `from` on of the first word of `tokens` that is a
/// number; the length of `tokens` if there is none.
pub open spec fn first_numeric(tokens: Seq<Seq<char>>, from: int) -> int
    decreases tokens.len() - from,
{
    if from < 0 || from >= tokens.len() {
        tokens.len() as int
    } else if numeric(tokens[from]) {
        from
    } else {
        first_numeric(tokens, from + 1)
    }
}

/// The words of `parts` with one space between each two.
pub open spec fn joined(parts: Seq<Seq<char>>) -> Seq<char>
    decreases parts.len(),
{
    if parts.len() == 0 {
        Seq::empty()
    } else if parts.len() == 1 {
        parts[0]
    } else {
        joined(parts.drop_last()).push(' ') + parts.last()
    }
}

/// Whether the image name of a row ends with a word that holds a period:
/// such a word stands before the first number of the row.
pub open spec fn name_is_marked(tokens: Seq<Seq<char>>) -> bool {
    first_dotted(tokens, 0) < first_numeric(tokens, 0)
}

/// How many words of a row make up the image name: those up to the first
/// that holds a period, or, where no such word stands before the first
/// number, those before that number.
pub open spec fn name_length(tokens: Seq<Seq<char>>) -> int {
    if name_is_marked(tokens) {
        first_dotted(tokens, 0) + 1
    } else {
        first_numeric(tokens, 0)
    }
}

/// The image name of a row: its words with single spaces between them,
/// and ".exe" behind them where none of them holds a period.
pub open spec fn image_name(tokens: Seq<Seq<char>>) -> Seq<char> {
    let name = joined(tokens.take(name_length(tokens)));
    if name_is_marked(tokens) {
        name
    } else {
        name + ".exe"@
    }
}

/// The process that a row of the column layout describes. After the words
/// of the image name come the process id and the session name; a row
/// counts when it has a name and both of these and the process id is a
/// number. What follows the session name is not read, so the record has no
/// session number.
pub open spec fn column_record(tokens: Seq<Seq<char>>) -> Option<ProcessView> {
    let n = name_length(tokens);
    if 0 < n && n + 1 < tokens.len() && numeric(tokens[n]) {
        Some(
            ProcessView {
                image_name: image_name(tokens),
                pid: tokens[n],
                session_name: tokens[n + 1],
                session_number: None,
            },
        )
    } else {
        None
    }
}

/// The processes that `lines` of the column layout describe, in order; a
/// line that describes none is passed over.
pub open spec fn column_records(lines: Seq<Seq<char>>) -> Seq<ProcessView>
    decreases lines.len(),
{
    if lines.len() == 0 {
        Seq::empty()
    } else {
        match column_record(words(lines.last())) {
            Some(process) => column_records(lines.drop_last()).push(process),
            None => column_records(lines.drop_last()),
        }
    }
}

/// The processes that a listing in the column layout holds. Its first two
/// lines that hold text are the captions and the rule under them.
pub open spec fn processes_in_table(text: Seq<char>) -> Seq<ProcessView> {
    column_records(below_captions(significant_lines(text), 2))
}

/// Every process of a listing in the column layout has a number for its
/// process id: a row whose id column holds anything else leaves no record.
pub proof fn lemma_table_pids_numeric(text: Seq<char>)
    ensures
        forall|i: int|
            0 <= i < processes_in_table(text).len() ==> numeric(
                (#[trigger] processes_in_table(text)[i]).pid,
            ),
{
    lemma_column_pids_numeric(below_captions(significant_lines(text), 2));
}

/// Every process read from rows of the column layout has a number for its
/// process id.
pub proof fn lemma_column_pids_numeric(lines: Seq<Seq<char>>)
    ensures
        forall|i: int|
            0 <= i < column_records(lines).len() ==> numeric(
                (#[trigger] column_records(lines)[i]).pid,
            ),
    decreases lines.len(),
{
    if lines.len() > 0 {
        lemma_column_pids_numeric(lines.drop_last());
    }
}

/// A row of the column layout whose process id is no number leaves no
/// record, whatever else it holds.
pub proof fn lemma_bad_pid_drops_row(tokens: Seq<Seq<char>>)
    requires
        0 <= name_length(tokens) < tokens.len(),
        !numeric(tokens[name_length(tokens)]),
    ensures
        column_record(tokens) is None,
{
}

/// Every row is read by itself: the processes of two runs of rows, one
/// after the other, are those of the first followed by those of the second.
pub proof fn lemma_column_records_concat(a: Seq<Seq<char>>, b: Seq<Seq<char>>)
    ensures
        column_records(a + b) == column_records(a) + column_records(b),
    decreases b.len(),
{
    if b.len() == 0 {
        assert(a + b =~= a);
        assert(column_records(a) + column_records(b) =~= column_records(a));
    } else {
        assert((a + b).drop_last() =~= a + b.drop_last());
        assert((a + b).last() == b.last());
        lemma_column_records_concat(a, b.drop_last());
        match column_record(words(b.last())) {
            Some(process) => {
                assert((column_records(a) + column_records(b.drop_last())).push(process)
                    =~= column_records(a) + column_records(b.drop_last()).push(process));
            },
            None => {},
        }
    }
}

/// A row that describes no process can be taken out of a listing in the
/// column layout: the records of the other rows stay the same, in the same
/// order. The row stands below the captions and is one line.
pub proof fn lemma_dropped_row_changes_nothing(
    before: Seq<char>,
    row: Seq<char>,
    after: Seq<char>,
)
    requires
        significant_lines(before).len() >= 2,
        none_in(row, CharClass::Only('\n')),
        column_record(words(row)) is None,
    ensures
        processes_in_table(before.push('\n') + (row.push('\n') + after)) == processes_in_table(
            before.push('\n') + after,
        ),
{
    let head = significant_lines(before);
    let middle = significant_lines(row);
    let tail = significant_lines(after);
    lemma_lines_join(before, row.push('\n') + after);
    lemma_lines_join(row, after);
    lemma_lines_join(before, after);
    lemma_single_line(row);
    lemma_words_of_trimmed(row);
    assert(column_records(middle) =~= Seq::<ProcessView>::empty()) by {
        reveal_with_fuel(column_records, 2);
        if middle.len() > 0 {
            assert(middle.drop_last() =~= Seq::<Seq<char>>::empty());
        }
    }
    assert(below_captions(head + (middle + tail), 2) =~= head.skip(2) + (middle + tail));
    assert(below_captions(head + tail, 2) =~= head.skip(2) + tail);
    lemma_column_records_concat(head.skip(2), middle + tail);
    lemma_column_records_concat(middle, tail);
    lemma_column_records_concat(head.skip(2), tail);
    assert(column_records(middle) + column_records(tail) =~= column_records(tail));
}

/// A row whose process id is no number leaves nothing in the listing: it
/// raises no fault, and the records are those of the listing without the
/// row.
pub proof fn lemma_bad_pid_row_changes_nothing(
    before: Seq<char>,
    row: Seq<char>,
    after: Seq<char>,
)
    requires
        significant_lines(before).len() >= 2,
        none_in(row, CharClass::Only('\n')),
        0 <= name_length(words(row)) < words(row).len(),
        !numeric(words(row)[name_length(words(row))]),
    ensures
        processes_in_table(before.push('\n') + (row.push('\n') + after)) == processes_in_table(
            before.push('\n') + after,
        ),
{
    lemma_bad_pid_drops_row(words(row));
    lemma_dropped_row_changes_nothing(before, row, after);
}

/// A search from `from` on passes over the words that lack what it looks
/// for.
pub proof fn lemma_search_passes(tokens: Seq<Seq<char>>, from: int, to: int)
    requires
        0 <= from <= to <= tokens.len(),
    ensures
        (forall|j: int| from <= j < to ==> !dotted(tokens[j])) ==> first_dotted(tokens, from)
            == first_dotted(tokens, to),
        (forall|j: int| from <= j < to ==> !numeric(tokens[j])) ==> first_numeric(tokens, from)
            == first_numeric(tokens, to),
    decreases to - from,
{
    if from < to {
        lemma_search_passes(tokens, from + 1, to);
    }
}

/// A row whose image name ends with a word that holds a period: where no
/// word of the name is a number, no earlier word of it holds a period, and
/// a number follows the name, the row gives the name as it stands, that
/// number as the process id and the next word as the session name.
pub proof fn lemma_marked_row(
    name: Seq<Seq<char>>,
    pid: Seq<char>,
    session_name: Seq<char>,
    rest: Seq<Seq<char>>,
)
    requires
        name.len() > 0,
        forall|j: int| 0 <= j < name.len() ==> !numeric(#[trigger] name[j]),
        forall|j: int| 0 <= j < name.len() - 1 ==> !dotted(#[trigger] name[j]),
        dotted(name.last()),
        numeric(pid),
    ensures
        column_record(name + seq![pid, session_name] + rest) == Some(
            ProcessView { image_name: joined(name), pid, session_name, session_number: None },
        ),
{
    let tokens = name + seq![pid, session_name] + rest;
    let n = name.len() as int;
    assert forall|j: int| 0 <= j < n implies tokens[j] == name[j] by {}
    assert(tokens[n] == pid && tokens[n + 1] == session_name);
    lemma_search_passes(tokens, 0, n - 1);
    lemma_search_passes(tokens, 0, n);
    lemma_search_bounds(tokens, n);
    assert(tokens.take(n) =~= name);
}

/// A row whose image name holds no period: where no word of the name is a
/// number and a number follows the name, the row gives the name with
/// ".exe" behind it, that number as the process id and the next word as
/// the session name.
pub proof fn lemma_unmarked_row(
    name: Seq<Seq<char>>,
    pid: Seq<char>,
    session_name: Seq<char>,
    rest: Seq<Seq<char>>,
)
    requires
        name.len() > 0,
        forall|j: int| 0 <= j < name.len() ==> !numeric(#[trigger] name[j]),
        forall|j: int| 0 <= j < name.len() ==> !dotted(#[trigger] name[j]),
        numeric(pid),
    ensures
        column_record(name + seq![pid, session_name] + rest) == Some(
            ProcessView {
                image_name: joined(name) + ".exe"@,
                pid,
                session_name,
                session_number: None,
            },
        ),
{
    let tokens = name + seq![pid, session_name] + rest;
    let n = name.len() as int;
    assert forall|j: int| 0 <= j < n implies tokens[j] == name[j] by {}
    assert(tokens[n] == pid && tokens[n + 1] == session_name);
    lemma_search_passes(tokens, 0, n);
    lemma_search_bounds(tokens, n);
    assert(tokens.take(n) =~= name);
}

/// A search from `from` on finds nothing before `from` and nothing
/// beyond the end.
pub proof fn lemma_search_bounds(tokens: Seq<Seq<char>>, from: int)
    requires
        0 <= from <= tokens.len(),
    ensures
        from <= first_dotted(tokens, from) <= tokens.len(),
        from <= first_numeric(tokens, from) <= tokens.len(),
    decreases tokens.len() - from,
{
    if from < tokens.len() {
        lemma_search_bounds(tokens, from + 1);
    }
}

fn has_period(word: &[char]) -> (b: bool)
    ensures
        b == dotted(word@),
{
    let mut i: usize = 0;
    while i < word.len()
        invariant
            i <= word.len(),
            forall|j: int| 0 <= j < i ==> word@[j] != '.',
        decreases word.len() - i,
    {
        if word[i] == '.' {
            assert(word@[i as int] == '.');
            return true;
        }
        i = i + 1;
    }
    false
}

/// Joins the first `n` words of `tokens` with single spaces.
fn join_words(tokens: &Vec<&[char]>, n: usize) -> (out: String)
    requires
        n <= tokens.len(),
    ensures
        out@ == joined(views(tokens@).take(n as int)),
{
    let ghost all = views(tokens@);
    let mut out = String::new();
    let mut k: usize = 0;
    assert(all.take(0) =~= Seq::<Seq<char>>::empty());
    while k < n
        invariant
            k <= n <= tokens.len(),
            all == views(tokens@),
            out@ == joined(all.take(k as int)),
        decreases n - k,
    {
        proof {
            assert(all.take(k + 1).drop_last() =~= all.take(k as int));
            assert(all.take(k + 1).last() == tokens@[k as int]@);
        }
        if k > 0 {
            out.push(' ');
        }
        append_chars(&mut out, tokens[k]);
        proof {
            if k == 0 {
                assert(Seq::<char>::empty() + tokens@[0]@ =~= tokens@[0]@);
                assert(all.take(1)[0] == tokens@[0]@);
            }
        }
        k = k + 1;
    }
    out
}

fn read_columns(tokens: &Vec<&[char]>) -> (process: Option<Process>)
    ensures
        match process {
            Some(p) => column_record(views(tokens@)) == Some(p@),
            None => column_record(views(tokens@)) is None,
        },
{
    let ghost all = views(tokens@);
    let mut k: usize = 0;
    let mut marked = false;
    while k < tokens.len()
        invariant_except_break
            !marked,
        invariant
            k <= tokens.len(),
            all == views(tokens@),
            first_dotted(all, 0) == first_dotted(all, k as int),
            first_numeric(all, 0) == first_numeric(all, k as int),
        ensures
            k <= tokens.len(),
            marked == name_is_marked(all),
            k == if marked {
                first_dotted(all, 0)
            } else {
                first_numeric(all, 0)
            },
        decreases tokens.len() - k,
    {
        assert(all[k as int] == tokens@[k as int]@);
        proof {
            lemma_search_bounds(all, k as int);
            lemma_search_bounds(all, k + 1);
        }
        if parse_u64(tokens[k]).is_some() {
            break;
        }
        if has_period(tokens[k]) {
            marked = true;
            break;
        }
        k = k + 1;
    }
    let n: usize = if marked {
        k + 1
    } else {
        k
    };
    assert(n == name_length(all));
    if n == 0 || n >= tokens.len() || n + 1 >= tokens.len() {
        return None;
    }
    assert(all[n as int] == tokens@[n as int]@);
    assert(all[n + 1] == tokens@[n + 1]@);
    if parse_u64(tokens[n]).is_none() {
        return None;
    }
    let mut image_name = join_words(tokens, n);
    if !marked {
        let suffix = chars_of(".exe");
        append_chars(&mut image_name, suffix.as_slice());
    }
    Some(
        Process {
            image_name,
            pid: string_of(tokens[n]),
            session_name: string_of(tokens[n + 1]),
            session_number: None,
        },
    )
}

/// Reads a process listing in the column layout.
pub fn parse_process_table(input: &str) -> (processes: Vec<Process>)
    ensures
        process_views(processes@) == processes_in_table(input@),
{
    let text = chars_of(input);
    let lines = split_lines(text.as_slice());
    let mut processes: Vec<Process> = Vec::new();
    if lines.len() < 2 {
        assert(process_views(processes@) =~= Seq::<ProcessView>::empty());
        return processes;
    }
    let ghost body = views(lines@).skip(2);
    let mut i: usize = 2;
    assert(body.take(0) =~= Seq::<Seq<char>>::empty());
    assert(process_views(processes@) =~= Seq::<ProcessView>::empty());
    while i < lines.len()
        invariant
            2 <= i <= lines.len(),
            body == views(lines@).skip(2),
            process_views(processes@) == column_records(body.take(i - 2)),
        decreases lines.len() - i,
    {
        let tokens = split_words(lines[i]);
        proof {
            assert(body.take(i - 1).drop_last() =~= body.take(i - 2));
            assert(body.take(i - 1).last() == lines@[i as int]@);
        }
        match read_columns(&tokens) {
            Some(process) => {
                proof {
                    assert(process_views(processes@.push(process)) =~= process_views(
                        processes@,
                    ).push(process@));
                }
                processes.push(process);
            },
            None => {},
        }
        i = i + 1;
    }
    assert(body.take(i - 2) =~= body);
    processes
}

} // verus!
