//! The line format of the checklist file, in both directions.
//!
//! A line holds an item where it begins with the six characters `- [ ] ` or
//! `- [X] `. The name is all that follows them, whatever it is. A line that
//! begins otherwise holds no item.

use regex::Regex;
use vstd::prelude::*;

use crate::error::ParseTodosError;
use crate::item::{ItemView, TodoItem};

verus! {

/// The regular expression that a line has to match from its first character
/// to its last. Its first group is the marker between the brackets, its second
/// group the name, in which the dot stands for every character.
pub const LINE_PATTERN: &'static str = r"(?s)^\- \[([ X])\] (.*)";

/// Whether a marker, `- [ ] ` or `- [X] `, stands in `line` at position `at`.
pub open spec fn marker_at(line: Seq<char>, at: int) -> bool {
    &&& 0 <= at
    &&& at + 6 <= line.len()
    &&& line[at] == '-'
    &&& line[at + 1] == ' '
    &&& line[at + 2] == '['
    &&& (line[at + 3] == ' ' || line[at + 3] == 'X')
    &&& line[at + 4] == ']'
    &&& line[at + 5] == ' '
}

/// The item that a line holds: the line begins with a marker, the item is
/// completed where the character between the brackets is an `X`, and the name
/// is the rest of the line. A line that does not begin with a marker holds
/// none.
pub open spec fn line_item(line: Seq<char>) -> Option<ItemView> {
    if marker_at(line, 0) {
        Some(ItemView { name: line.skip(6), done: line[3] == 'X' })
    } else {
        None
    }
}

/// The line that holds `item`, without a line ending.
pub open spec fn line_text(item: ItemView) -> Seq<char> {
    seq!['-', ' ', '[', if item.done { 'X' } else { ' ' }, ']', ' '] + item.name
}

/// What a search of `line` for the line pattern captures, by the number of
/// the group: the whole match, which is the whole line; the character between
/// the brackets; the name. A line that does not begin with a marker has no
/// match.
pub open spec fn line_groups(line: Seq<char>) -> Option<Seq<Seq<char>>> {
    if marker_at(line, 0) {
        Some(seq![line, line.subrange(3, 4), line.skip(6)])
    } else {
        None
    }
}

/// Reading inverts writing: the line written for an item holds that item,
/// whatever its name is.
pub proof fn lemma_line_round_trip(item: ItemView)
    ensures
        line_item(line_text(item)) == Some(item),
{
    let line = line_text(item);
    assert(marker_at(line, 0));
    assert(line.skip(6) =~= item.name);
}

/// Writing inverts reading: a line that holds an item is the line that is
/// written for that item, character for character.
pub proof fn lemma_line_rewritten(line: Seq<char>)
    requires
        line_item(line) is Some,
    ensures
        line_text(line_item(line)->0) == line,
{
    assert(line_text(line_item(line)->0) =~= line);
}

/// The text of group `group` of a match: none where the search found
/// nothing, the pattern has no such group, or the group took no part in the
/// match.
pub open spec fn group_text(found: Option<Vec<Option<String>>>, group: int) -> Option<Seq<char>> {
    match found {
        Some(groups) => if 0 <= group < groups.len() {
            match groups[group] {
                Some(text) => Some(text@),
                None => None,
            }
        } else {
            None
        },
        None => None,
    }
}

/// Whether `found` holds a match in which every group of `groups` took part
/// with the text given there, or no match where `groups` is none.
pub open spec fn captures_are(
    found: Option<Vec<Option<String>>>,
    groups: Option<Seq<Seq<char>>>,
) -> bool {
    match groups {
        Some(texts) => {
            &&& found matches Some(list) && list.len() == texts.len()
            &&& forall|group: int|
                0 <= group < texts.len() ==> group_text(found, group) == Some(
                    #[trigger] texts[group],
                )
        },
        None => found is None,
    }
}

/// The item that the groups of a search of `line` stand for. There is one
/// where the whole match, group 0, is the whole line and the groups 1 and 2
/// have a text: the name is the text of group 2, and the item is completed
/// where the text of group 1 is `X`.
pub open spec fn captures_item(
    line: Seq<char>,
    found: Option<Vec<Option<String>>>,
) -> Option<ItemView> {
    match (group_text(found, 0), group_text(found, 1), group_text(found, 2)) {
        (Some(whole), Some(marker), Some(name)) => if whole == line {
            Some(ItemView { name, done: marker == seq!['X'] })
        } else {
            None
        },
        _ => None,
    }
}

/// Compiles `pattern` with `Regex::new` and searches `line` with
/// `Regex::captures`. A match is handed back as the texts of its groups, read
/// with `Captures::get` and `Match::as_str` in the order of their numbers,
/// group 0 first; a group that took no part in the match is `None`.
///
/// The contract is stated for the line pattern only. It claims that this
/// pattern compiles; that `^` lets a match begin at the first character of the
/// text and nowhere else; that under the flag `s` the dot stands for every
/// character, the line feed among them, so that `.*` takes all the rest of the
/// text; and that both groups take part in every match.
#[verifier::external_body]
fn search_line(pattern: &str, line: &str) -> (found: Result<
    Option<Vec<Option<String>>>,
    regex::Error,
>)
    requires
        pattern@ == LINE_PATTERN@,
    ensures
        found is Ok,
        captures_are(found->Ok_0, line_groups(line@)),
{
    let found = Regex::new(pattern)?.captures(line);
    Ok(found.map(|c| (0..c.len()).map(|g| c.get(g).map(|m| m.as_str().to_string())).collect()))
}

/// The text of group `group`, copied out of a match.
fn copy_group(groups: &Vec<Option<String>>, group: usize) -> (text: Option<String>)
    ensures
        match text {
            Some(t) => group_text(Some(*groups), group as int) == Some(t@),
            None => group_text(Some(*groups), group as int) is None,
        },
{
    if group < groups.len() {
        match &groups[group] {
            Some(text) => Some(text.clone()),
            None => None,
        }
    } else {
        None
    }
}

/// Turns the outcome of a search of `line` into the item, or into the syntax
/// error that cites the line.
///
/// The outcome is either no match, or the texts of the groups of a match by
/// their numbers, as the search hands them back. A match that is not the
/// whole line, from its first character to its last, gives no item.
pub fn item_from_captures(line: &str, found: Option<Vec<Option<String>>>) -> (r: Result<
    TodoItem,
    ParseTodosError,
>)
    ensures
        r is Ok <==> captures_item(line@, found) is Some,
        match r {
            Ok(item) => captures_item(line@, found) == Some(item@),
            Err(e) => e matches ParseTodosError::InvalidSyntax(text) && text@ == line@,
        },
{
    if let Some(groups) = &found {
        if let Some(whole) = copy_group(groups, 0) {
            if let Some(marker) = copy_group(groups, 1) {
                if let Some(name) = copy_group(groups, 2) {
                    if whole == String::from_str(line) {
                        let done = marker == String::from_str("X");
                        proof {
                            reveal_strlit("X");
                            assert("X"@ =~= seq!['X']);
                        }
                        return Ok(TodoItem { name, done });
                    }
                }
            }
        }
    }
    Err(ParseTodosError::InvalidSyntax(String::from_str(line)))
}

/// Searches `line` for the line pattern. The result is the match of the
/// whole line, as the texts of its three groups, or nothing where the line
/// does not begin with a marker. The search does not fail: the pattern is
/// one that compiles.
pub fn capture_line(line: &str) -> (found: Result<Option<Vec<Option<String>>>, regex::Error>)
    ensures
        found is Ok,
        captures_are(found->Ok_0, line_groups(line@)),
{
    search_line(LINE_PATTERN, line)
}

/// Reads one line of the file.
///
/// The line holds an item where it begins with a marker; the result is then
/// that item, and its name is all of the line after the marker. A text with a
/// line feed in it is taken as one line all the same, and the line feed
/// belongs to the name. Every line that does not begin with a marker is a
/// syntax error, which cites the whole line.
pub fn parse_line(line: &str) -> (r: Result<TodoItem, ParseTodosError>)
    ensures
        r is Ok <==> marker_at(line@, 0),
        match r {
            Ok(item) => item@ == (ItemView { name: line@.skip(6), done: line@[3] == 'X' }),
            Err(e) => e matches ParseTodosError::InvalidSyntax(text) && text@ == line@,
        },
{
    match capture_line(line) {
        Ok(found) => {
            proof {
                if marker_at(line@, 0) {
                    let groups = line_groups(line@)->0;
                    assert(group_text(found, 0) == Some(groups[0]));
                    assert(group_text(found, 1) == Some(groups[1]));
                    assert(group_text(found, 2) == Some(groups[2]));
                    assert(groups[1] == seq!['X'] <==> line@[3] == 'X') by {
                        if line@[3] == 'X' {
                            assert(groups[1] =~= seq!['X']);
                        } else {
                            assert(groups[1][0] != seq!['X'][0]);
                        }
                    }
                }
            }
            item_from_captures(line, found)
        },
        Err(e) => Err(ParseTodosError::from(e)),
    }
}

/// Writes one item as a line of the file, without a line ending.
pub fn format_line(item: &TodoItem) -> (line: String)
    ensures
        line@ == line_text(item@),
{
    let mut line = if item.done {
        String::from_str("- [X] ")
    } else {
        String::from_str("- [ ] ")
    };
    proof {
        reveal_strlit("- [X] ");
        reveal_strlit("- [ ] ");
    }
    line.append(item.name.as_str());
    line
}

} // verus!
