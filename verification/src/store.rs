//! The whole list, read from the lines of the file and written back as the
//! text of the file.

use vstd::prelude::*;

use crate::error::ParseTodosError;
use crate::item::{ItemView, TodoItem};
use crate::line::{
    format_line, lemma_line_rewritten, lemma_line_round_trip, line_item, line_text, parse_line,
};

verus! {

/// The item that one read of a line gives: none where the read failed or the
/// line holds no item.
pub open spec fn read_item(read: Result<String, std::io::Error>) -> Option<ItemView> {
    match read {
        Ok(line) => line_item(line@),
        Err(_) => None,
    }
}

/// Whether every read gave an item.
pub open spec fn all_read(reads: Seq<Result<String, std::io::Error>>) -> bool {
    forall|k: int| 0 <= k < reads.len() ==> (#[trigger] read_item(reads[k])) is Some
}

/// Whether read `k` is the first one that gave no item.
pub open spec fn first_failure_at(reads: Seq<Result<String, std::io::Error>>, k: int) -> bool {
    &&& 0 <= k < reads.len()
    &&& read_item(reads[k]) is None
    &&& forall|j: int| 0 <= j < k ==> (#[trigger] read_item(reads[j])) is Some
}

/// The items of reads that all gave one, in the order of the lines.
pub open spec fn items_read(reads: Seq<Result<String, std::io::Error>>) -> Seq<ItemView> {
    Seq::new(reads.len(), |k: int| read_item(reads[k])->0)
}

/// Whether `e` is the error of the first read that gave no item: the failure
/// of that read, or the syntax error that cites the line that was read.
pub open spec fn failed_with(
    reads: Seq<Result<String, std::io::Error>>,
    e: ParseTodosError,
) -> bool {
    exists|k: int| #[trigger] first_failure_at(reads, k) && failure_of(reads[k], e)
}

/// Whether `e` is the error for a read that gave no item.
pub open spec fn failure_of(read: Result<String, std::io::Error>, e: ParseTodosError) -> bool {
    match e {
        ParseTodosError::RegexError(_) => false,
        ParseTodosError::IoError(failure) => read == Err::<String, std::io::Error>(failure),
        ParseTodosError::InvalidSyntax(text) => read matches Ok(line) && line@ == text@,
    }
}

/// The lines that hold `items`, one line for each item, in the same order.
pub open spec fn lines_written(items: Seq<ItemView>) -> Seq<Seq<char>> {
    Seq::new(items.len(), |k: int| line_text(items[k]))
}

/// Reads the list from the lines of the file, given as they were read, in
/// order, each either the text of the line or the failure to read it.
///
/// The result is the list of the items of all lines where every line was read
/// and holds an item. Otherwise the first line that was not read or holds no
/// item decides: the failure of the read, or the syntax error that cites the
/// line. Nothing after that line is looked at.
pub fn parse_todos(lines: Vec<Result<String, std::io::Error>>) -> (r: Result<
    Vec<TodoItem>,
    ParseTodosError,
>)
    ensures
        r is Ok <==> all_read(lines@),
        match r {
            Ok(todos) => todos.deep_view() == items_read(lines@),
            Err(e) => failed_with(lines@, e),
        },
{
    let mut todos: Vec<TodoItem> = Vec::new();
    for read in it: lines
        invariant
            it.seq() == lines@,
            todos.len() == it.index(),
            forall|j: int|
                0 <= j < it.index() ==> (#[trigger] read_item(lines@[j])) == Some(todos@[j]@),
    {
        let ghost k = it.index() as int;
        match read {
            Ok(line) => {
                match parse_line(line.as_str()) {
                    Ok(item) => {
                        todos.push(item);
                    },
                    Err(e) => {
                        assert(first_failure_at(lines@, k));
                        return Err(e);
                    },
                }
            },
            Err(e) => {
                assert(first_failure_at(lines@, k));
                return Err(ParseTodosError::from(e));
            },
        }
    }
    Ok(todos)
}

/// The text of a file with the given lines: each line in turn, with a line
/// feed after it.
pub open spec fn terminated(lines: Seq<Seq<char>>) -> Seq<char>
    decreases lines.len(),
{
    if lines.len() == 0 {
        Seq::empty()
    } else {
        terminated(lines.drop_last()) + lines.last() + seq!['\n']
    }
}

/// The content of the file that holds `items`.
pub open spec fn file_text(items: Seq<ItemView>) -> Seq<char> {
    terminated(lines_written(items))
}

/// Writes the list as the whole content of the file: one line for each item,
/// in the order of the list, each ended by a line feed. The text is meant to
/// replace what the file held.
pub fn serialize_todos(todos: &Vec<TodoItem>) -> (text: String)
    ensures
        text@ == file_text(todos.deep_view()),
{
    let mut text = String::new();
    let mut k: usize = 0;
    let ghost lines = lines_written(todos.deep_view());
    proof {
        reveal_strlit("\n");
        assert(lines.take(0) =~= Seq::<Seq<char>>::empty());
    }
    while k < todos.len()
        invariant
            k <= todos.len(),
            lines == lines_written(todos.deep_view()),
            "\n"@ == seq!['\n'],
            text@ == terminated(lines.take(k as int)),
        decreases todos.len() - k,
    {
        let line = format_line(&todos[k]);
        text.append(line.as_str());
        text.append("\n");
        proof {
            let longer = lines.take(k + 1);
            assert(longer.drop_last() =~= lines.take(k as int));
            assert(longer.last() == line_text(todos@[k as int]@));
        }
        k += 1;
    }
    assert(lines.take(todos.len() as int) =~= lines);
    text
}

/// Whether no line has a line feed in it.
pub open spec fn single_lines(lines: Seq<Seq<char>>) -> bool {
    forall|k: int| 0 <= k < lines.len() ==> !(#[trigger] lines[k]).contains('\n')
}

/// The text of a file is empty or ends with a line feed.
proof fn lemma_terminated_end(lines: Seq<Seq<char>>)
    ensures
        lines.len() == 0 ==> terminated(lines).len() == 0,
        lines.len() > 0 ==> terminated(lines).len() > 0 && terminated(lines).last() == '\n',
{
}

/// A text is made of lines in one way only: two sequences of lines, none
/// with a line feed in it, that give the same text are the same lines. So the
/// lines that were written are the lines that a reader finds who cuts the text
/// at its line feeds.
pub proof fn lemma_lines_of_text(a: Seq<Seq<char>>, b: Seq<Seq<char>>)
    requires
        single_lines(a),
        single_lines(b),
        terminated(a) == terminated(b),
    ensures
        a == b,
    decreases a.len(),
{
    lemma_terminated_end(a);
    lemma_terminated_end(b);
    if a.len() == 0 {
        assert(a =~= b);
    } else {
        let text = terminated(a);
        let (rest_a, last_a) = (terminated(a.drop_last()), a.last());
        let (rest_b, last_b) = (terminated(b.drop_last()), b.last());
        lemma_terminated_end(a.drop_last());
        lemma_terminated_end(b.drop_last());
        assert(text == rest_a + last_a + seq!['\n']);
        assert(text == rest_b + last_b + seq!['\n']);
        assert(rest_a.len() + last_a.len() == rest_b.len() + last_b.len());
        if last_a.len() < last_b.len() {
            let at = rest_a.len() - 1;
            assert(text[at] == rest_a[at]);
            assert(text[at] == last_b[at - rest_b.len()]);
            assert(last_b.contains(text[at]));
        } else if last_b.len() < last_a.len() {
            let at = rest_b.len() - 1;
            assert(text[at] == rest_b[at]);
            assert(text[at] == last_a[at - rest_a.len()]);
            assert(last_a.contains(text[at]));
        }
        assert(last_a =~= last_b) by {
            assert forall|i: int| 0 <= i < last_a.len() implies last_a[i] == last_b[i] by {
                assert(text[rest_a.len() + i] == last_a[i]);
                assert(text[rest_b.len() + i] == last_b[i]);
            }
        }
        assert(rest_a =~= rest_b) by {
            assert forall|i: int| 0 <= i < rest_a.len() implies rest_a[i] == rest_b[i] by {
                assert(text[i] == rest_a[i]);
                assert(text[i] == rest_b[i]);
            }
        }
        let (front_a, front_b) = (a.drop_last(), b.drop_last());
        assert forall|k: int| 0 <= k < front_a.len() implies !(#[trigger] front_a[k]).contains(
            '\n',
        ) by {
            assert(front_a[k] == a[k]);
        }
        assert forall|k: int| 0 <= k < front_b.len() implies !(#[trigger] front_b[k]).contains(
            '\n',
        ) by {
            assert(front_b[k] == b[k]);
        }
        lemma_lines_of_text(front_a, front_b);
        assert(a =~= a.drop_last().push(last_a));
        assert(b =~= b.drop_last().push(last_b));
    }
}

/// The lines written for a list have no line feed in them where the names
/// have none.
pub proof fn lemma_written_lines_single(items: Seq<ItemView>)
    requires
        forall|k: int| 0 <= k < items.len() ==> !(#[trigger] items[k]).name.contains('\n'),
    ensures
        single_lines(lines_written(items)),
{
    let lines = lines_written(items);
    assert forall|k: int| 0 <= k < lines.len() implies !(#[trigger] lines[k]).contains('\n') by {
        let line = line_text(items[k]);
        if line.contains('\n') {
            let i = choose|i: int| 0 <= i < line.len() && line[i] == '\n';
            assert(items[k].name[i - 6] == '\n');
        }
    }
}

/// The texts of reads that all succeeded, in their order.
pub open spec fn texts_read(reads: Seq<Result<String, std::io::Error>>) -> Seq<Seq<char>> {
    Seq::new(reads.len(), |k: int| reads[k]->Ok_0@)
}

/// Reading inverts writing: where every line is read as it was written for
/// a list, the lines give that list back.
pub proof fn lemma_store_round_trip(
    items: Seq<ItemView>,
    reads: Seq<Result<String, std::io::Error>>,
)
    requires
        forall|k: int| 0 <= k < reads.len() ==> (#[trigger] reads[k]) is Ok,
        texts_read(reads) == lines_written(items),
    ensures
        all_read(reads),
        items_read(reads) == items,
{
    assert(reads.len() == texts_read(reads).len() == items.len());
    assert forall|k: int| 0 <= k < reads.len() implies (#[trigger] read_item(reads[k])) == Some(
        items[k],
    ) by {
        lemma_line_round_trip(items[k]);
        assert(texts_read(reads)[k] == lines_written(items)[k]);
    }
}

/// Writing inverts reading: lines that give a list are the lines that are
/// written for that list, so a file that is read and written back without a
/// change holds what it held.
pub proof fn lemma_store_rewritten(reads: Seq<Result<String, std::io::Error>>)
    requires
        all_read(reads),
    ensures
        lines_written(items_read(reads)) == texts_read(reads),
{
    assert forall|k: int| 0 <= k < reads.len() implies lines_written(items_read(reads))[k]
        == texts_read(reads)[k] by {
        assert(read_item(reads[k]) is Some);
        lemma_line_rewritten(reads[k]->Ok_0@);
    }
}

/// Reading inverts writing, through the file: where the lines that are read,
/// none with a line feed in it, make up the text that was written for a list,
/// and no name in the list has a line feed in it, the lines give that list
/// back. A name with a line feed in it is written as more than one line of the
/// file, so that the lines of the file are no longer the lines that were
/// written.
pub proof fn lemma_file_round_trip(
    items: Seq<ItemView>,
    reads: Seq<Result<String, std::io::Error>>,
)
    requires
        forall|k: int| 0 <= k < items.len() ==> !(#[trigger] items[k]).name.contains('\n'),
        forall|k: int| 0 <= k < reads.len() ==> (#[trigger] reads[k]) is Ok,
        single_lines(texts_read(reads)),
        terminated(texts_read(reads)) == file_text(items),
    ensures
        all_read(reads),
        items_read(reads) == items,
{
    lemma_written_lines_single(items);
    lemma_lines_of_text(texts_read(reads), lines_written(items));
    lemma_store_round_trip(items, reads);
}

} // verus!
