//! Item ids as the user writes them, and as the list is changed by them.
//!
//! An id is the position of an item in the list, counted from one. It is
//! written in decimal digits, with or without a plus sign before them.

use vstd::prelude::*;

use crate::error::ParseIdsError;
use crate::render::{decimal, digit_char};

verus! {

/// Whether `c` is one of the ten decimal digits.
pub open spec fn is_digit(c: char) -> bool {
    '0' <= c <= '9'
}

/// The number that a sequence of decimal digits stands for; zero for the empty
/// sequence.
pub open spec fn digits_value(digits: Seq<char>) -> nat
    decreases digits.len(),
{
    if digits.len() == 0 {
        0
    } else {
        (10 * digits_value(digits.drop_last()) + (digits.last() as u32 - '0' as u32)) as nat
    }
}

/// Whether `text` is made of decimal digits, at least one.
pub open spec fn all_digits(text: Seq<char>) -> bool {
    &&& text.len() > 0
    &&& forall|k: int| 0 <= k < text.len() ==> is_digit(#[trigger] text[k])
}

/// What follows the sign: `text` without the plus sign that it may begin
/// with.
pub open spec fn unsigned_part(text: Seq<char>) -> Seq<char> {
    if text.len() > 0 && text[0] == '+' {
        text.skip(1)
    } else {
        text
    }
}

/// The number written in `text`: one or more decimal digits, and nothing else
/// but one plus sign that may stand before them.
pub open spec fn number_written(text: Seq<char>) -> Option<nat> {
    if all_digits(unsigned_part(text)) {
        Some(digits_value(unsigned_part(text)))
    } else {
        None
    }
}

/// The number written in `text`, where it fits the machine word.
pub open spec fn word_written(text: Seq<char>) -> Option<usize> {
    match number_written(text) {
        Some(n) => if n <= usize::MAX {
            Some(n as usize)
        } else {
            None
        },
        None => None,
    }
}

/// `str::parse::<usize>`: the number that `text` holds in decimal digits,
/// after an optional plus sign. It fails on any other text, the empty one
/// included, and on a number above `usize::MAX`.
#[verifier::external_body]
fn parse_word(text: &str) -> (r: Result<usize, std::num::ParseIntError>)
    ensures
        r is Ok <==> word_written(text@) is Some,
        r is Ok ==> word_written(text@) == Some(r->Ok_0),
{
    text.parse::<usize>()
}

/// The id that `text` names in a list of `len` items: the number written in
/// it, where that number is the position of an item.
pub open spec fn id_named(text: Seq<char>, len: usize) -> Option<usize> {
    match word_written(text) {
        Some(id) => if 1 <= id <= len {
            Some(id)
        } else {
            None
        },
        None => None,
    }
}

/// Whether operand `k` is the first one that names no item of a list of `len`
/// items.
pub open spec fn first_bad_id_at(operands: Seq<String>, len: usize, k: int) -> bool {
    &&& 0 <= k < operands.len()
    &&& id_named(operands[k]@, len) is None
    &&& forall|j: int| 0 <= j < k ==> (#[trigger] id_named(operands[j]@, len)) is Some
}

/// Whether every operand names an item of a list of `len` items.
pub open spec fn all_named(operands: Seq<String>, len: usize) -> bool {
    forall|k: int| 0 <= k < operands.len() ==> (#[trigger] id_named(operands[k]@, len)) is Some
}

/// The ids that the operands name, in the order of the operands.
pub open spec fn ids_named(operands: Seq<String>, len: usize) -> Seq<usize> {
    Seq::new(operands.len(), |k: int| id_named(operands[k]@, len)->0)
}

/// Whether `e` is the error of the first operand that names no item of a list
/// of `len` items: `InvalidId` with the number, where the operand is a number
/// that fits the machine word, and `ParseError` where it is not.
pub open spec fn rejected_with(operands: Seq<String>, len: usize, e: ParseIdsError) -> bool {
    exists|k: int| #[trigger] first_bad_id_at(operands, len, k) && refused_as(operands[k]@, e)
}

/// Whether `e` is the error for a text that names no item: `InvalidId` with
/// the number written in it, or `ParseError` where it holds no number that fits
/// the machine word.
pub open spec fn refused_as(text: Seq<char>, e: ParseIdsError) -> bool {
    match e {
        ParseIdsError::InvalidId(id) => word_written(text) == Some(id),
        ParseIdsError::ParseError(_) => word_written(text) is None,
    }
}

/// The first operand that names no item decides the error, and it alone: a
/// number, be it zero or above the length of the list, is refused as an
/// invalid id with that number, and any other text as a parse error.
pub proof fn lemma_rejection_decided(operands: Seq<String>, len: usize, k: int, e: ParseIdsError)
    requires
        first_bad_id_at(operands, len, k),
        rejected_with(operands, len, e),
    ensures
        !all_named(operands, len),
        match word_written(operands[k]@) {
            Some(id) => (id == 0 || id > len) && e == ParseIdsError::InvalidId(id),
            None => e is ParseError,
        },
{
    let other = choose|other: int|
        #[trigger] first_bad_id_at(operands, len, other) && refused_as(operands[other]@, e);
    if other < k {
        assert(id_named(operands[other]@, len) is Some);
    } else if k < other {
        assert(id_named(operands[k]@, len) is Some);
    }
}

/// Accepts a number as the id of an item in a list of `len` items, or says why
/// it is none: the operand was no number, or no item has that position.
pub fn check_id(parsed: Result<usize, std::num::ParseIntError>, len: usize) -> (r: Result<
    usize,
    ParseIdsError,
>)
    ensures
        match r {
            Ok(id) => parsed == Ok::<usize, std::num::ParseIntError>(id) && 1 <= id <= len,
            Err(ParseIdsError::InvalidId(id)) => {
                &&& parsed == Ok::<usize, std::num::ParseIntError>(id)
                &&& (id == 0 || id > len)
            },
            Err(ParseIdsError::ParseError(e)) => parsed == Err::<usize, std::num::ParseIntError>(e),
        },
{
    match parsed {
        Err(e) => Err(ParseIdsError::from(e)),
        Ok(id) => {
            if id == 0 || id > len {
                Err(ParseIdsError::InvalidId(id))
            } else {
                Ok(id)
            }
        },
    }
}

/// Reads the id operands of a command for a list of `len` items.
///
/// Where every operand names an item, the result holds the ids in the order of
/// the operands. Otherwise the first operand that names none decides the
/// error: `InvalidId` with the number, where it is a number that fits the
/// machine word, and `ParseError` where it is not.
pub fn parse_ids(operands: &[String], len: usize) -> (r: Result<Vec<usize>, ParseIdsError>)
    ensures
        r is Ok <==> all_named(operands@, len),
        match r {
            Ok(ids) => ids@ == ids_named(operands@, len),
            Err(e) => rejected_with(operands@, len, e),
        },
{
    let mut ids: Vec<usize> = Vec::new();
    let mut k: usize = 0;
    while k < operands.len()
        invariant
            k <= operands.len(),
            ids.len() == k,
            forall|j: int|
                0 <= j < k ==> (#[trigger] id_named(operands@[j]@, len)) == Some(ids@[j]),
        decreases operands.len() - k,
    {
        match check_id(parse_word(operands[k].as_str()), len) {
            Ok(id) => {
                ids.push(id);
            },
            Err(e) => {
                assert(first_bad_id_at(operands@, len, k as int));
                return Err(e);
            },
        }
        k += 1;
    }
    Ok(ids)
}

/// Whether each id is larger than all that follow it.
pub open spec fn strictly_descending(ids: Seq<usize>) -> bool {
    forall|i: int, j: int| 0 <= i < j < ids.len() ==> ids[i] > ids[j]
}

/// Whether `position` is among `ids`.
pub open spec fn listed(ids: Seq<usize>, position: int) -> bool {
    exists|k: int| 0 <= k < ids.len() && #[trigger] ids[k] == position
}

/// Whether two sequences hold the same ids, whatever their order and however
/// often each occurs.
pub open spec fn same_ids(a: Seq<usize>, b: Seq<usize>) -> bool {
    forall|position: int| #![trigger listed(a, position)] #![trigger listed(b, position)]
        listed(a, position) <==> listed(b, position)
}

/// The ids among the first `k + 1` are those among the first `k` and id `k`.
pub proof fn lemma_listed_next(ids: Seq<usize>, k: int, position: int)
    requires
        0 <= k < ids.len(),
    ensures
        listed(ids.take(k + 1), position) <==> (listed(ids.take(k), position) || position
            == ids[k]),
{
    let shorter = ids.take(k);
    let longer = ids.take(k + 1);
    if listed(longer, position) {
        let i = choose|i: int| 0 <= i < longer.len() && longer[i] == position;
        if i < k {
            assert(shorter[i] == position);
        }
    }
    if listed(shorter, position) {
        let i = choose|i: int| 0 <= i < shorter.len() && shorter[i] == position;
        assert(longer[i] == position);
    }
    assert(longer[k] == ids[k]);
}

proof fn lemma_listed_insert(ids: Seq<usize>, at: int, new: usize, position: int)
    requires
        0 <= at <= ids.len(),
    ensures
        listed(ids.insert(at, new), position) <==> (listed(ids, position) || position == new),
{
    let longer = ids.insert(at, new);
    ids.insert_ensures(at, new);
    if listed(longer, position) {
        let i = choose|i: int| 0 <= i < longer.len() && longer[i] == position;
        if i < at {
            assert(ids[i] == position);
        } else if i > at {
            assert(ids[i - 1] == position);
        }
    }
    if listed(ids, position) {
        let i = choose|i: int| 0 <= i < ids.len() && ids[i] == position;
        if i < at {
            assert(longer[i] == position);
        } else {
            assert(longer[i + 1] == position);
        }
    }
}

proof fn lemma_insert_descending(ids: Seq<usize>, at: int, new: usize)
    requires
        0 <= at <= ids.len(),
        strictly_descending(ids),
        forall|j: int| 0 <= j < at ==> ids[j] > new,
        at < ids.len() ==> ids[at] < new,
    ensures
        strictly_descending(ids.insert(at, new)),
{
    let longer = ids.insert(at, new);
    ids.insert_ensures(at, new);
    assert forall|i: int, j: int| 0 <= i < j < longer.len() implies longer[i] > longer[j] by {
        if j > at {
            assert(longer[(j - 1) + 1] == ids[j - 1]);
        }
        if i > at {
            assert(longer[(i - 1) + 1] == ids[i - 1]);
        }
    }
}

/// Orders ids from the highest to the lowest and drops the repetitions, so
/// that removing the items one by one in that order moves no item that is still
/// to be removed.
pub fn normalize_ids(ids: &[usize]) -> (ordered: Vec<usize>)
    ensures
        strictly_descending(ordered@),
        same_ids(ordered@, ids@),
{
    let mut ordered: Vec<usize> = Vec::new();
    let mut k: usize = 0;
    while k < ids.len()
        invariant
            k <= ids.len(),
            strictly_descending(ordered@),
            same_ids(ordered@, ids@.take(k as int)),
        decreases ids.len() - k,
    {
        let id: usize = ids[k];
        let mut at: usize = 0;
        while at < ordered.len() && ordered[at] > id
            invariant
                at <= ordered.len(),
                forall|j: int| 0 <= j < at ==> ordered@[j] > id,
            decreases ordered.len() - at,
        {
            at += 1;
        }
        let ghost before = ordered@;
        if at == ordered.len() || ordered[at] != id {
            ordered.insert(at, id);
            proof {
                lemma_insert_descending(before, at as int, id);
            }
        }
        proof {
            assert forall|position: int|
                #![trigger listed(ordered@, position)]
                #![trigger listed(ids@.take(k + 1), position)]
                listed(ordered@, position) <==> listed(ids@.take(k + 1), position) by {
                lemma_listed_next(ids@, k as int, position);
                if ordered@.len() == before.len() {
                    assert(before[at as int] == id);
                } else {
                    lemma_listed_insert(before, at as int, id, position);
                }
            }
        }
        k += 1;
    }
    assert(ids@.take(ids.len() as int) =~= ids@);
    ordered
}

/// The position that is shown before an item is read back as that position:
/// a number written in decimal digits is the number that the digits stand for.
pub proof fn lemma_decimal_is_read(n: nat)
    ensures
        number_written(decimal(n)) == Some(n),
{
    lemma_decimal_digits(n);
}

/// The decimal digits of a number are digits, at least one, and stand for the
/// number.
proof fn lemma_decimal_digits(n: nat)
    ensures
        decimal(n).len() > 0,
        forall|k: int| 0 <= k < decimal(n).len() ==> is_digit(#[trigger] decimal(n)[k]),
        digits_value(decimal(n)) == n,
    decreases n,
{
    let last = digit_char(n % 10);
    if n < 10 {
        let text = seq![last];
        assert(digits_value(text.drop_last()) == 0);
    } else {
        lemma_decimal_digits(n / 10);
        let text = decimal(n / 10).push(last);
        assert(text.drop_last() =~= decimal(n / 10));
    }
}

} // verus!
