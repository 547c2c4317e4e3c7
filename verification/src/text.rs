//! Lines as sequences of characters, and their division into fields.

use vstd::prelude::*;

verus! {

/// The character that separates the fields of a line. There is no escaping:
/// every occurrence of it ends a field.
pub const SEPARATOR: char = ',';

/// The views of a sequence of strings, in order.
pub open spec fn texts(fields: Seq<String>) -> Seq<Seq<char>> {
    Seq::new(fields.len(), |i: int| fields[i]@)
}

/// Position of the first separator in `line`, or the length of `line` if it
/// holds none.
pub open spec fn first_separator(line: Seq<char>) -> int
    decreases line.len(),
{
    if line.len() == 0 || line[0] == SEPARATOR {
        0
    } else {
        1 + first_separator(line.skip(1))
    }
}

/// The fields of `line`: the maximal runs of characters between separators.
/// A line with `n` separators has `n + 1` fields, some of which may be empty.
pub open spec fn split_fields(line: Seq<char>) -> Seq<Seq<char>>
    decreases line.len(),
{
    let cut = first_separator(line);
    if 0 <= cut < line.len() {
        seq![line.take(cut)] + split_fields(line.skip(cut + 1))
    } else {
        seq![line]
    }
}

/// The fields put together again, with one separator between neighbours.
pub open spec fn join_fields(fields: Seq<Seq<char>>) -> Seq<char>
    decreases fields.len(),
{
    if fields.len() == 0 {
        Seq::empty()
    } else if fields.len() == 1 {
        fields[0]
    } else {
        fields[0] + seq![SEPARATOR] + join_fields(fields.skip(1))
    }
}

/// Whether `field` is free of separators.
pub open spec fn separator_free(field: Seq<char>) -> bool {
    forall|i: int| 0 <= i < field.len() ==> field[i] != SEPARATOR
}

/// `first_separator` is the one position that holds a separator (or is the end
/// of the line) and has none before it.
pub proof fn lemma_first_separator(line: Seq<char>, cut: int)
    requires
        0 <= cut <= line.len(),
        forall|i: int| 0 <= i < cut ==> line[i] != SEPARATOR,
        cut == line.len() || line[cut] == SEPARATOR,
    ensures
        first_separator(line) == cut,
    decreases line.len(),
{
    if cut > 0 {
        let rest = line.skip(1);
        assert forall|i: int| 0 <= i < cut - 1 implies rest[i] != SEPARATOR by {
            assert(rest[i] == line[i + 1]);
        }
        lemma_first_separator(rest, cut - 1);
    }
}

/// Splitting loses nothing: a line always has at least one field, no field
/// holds a separator, and joining the fields gives the line back.
pub proof fn lemma_split_then_join(line: Seq<char>)
    ensures
        split_fields(line).len() >= 1,
        forall|k: int| 0 <= k < split_fields(line).len() ==> separator_free(
            #[trigger] split_fields(line)[k],
        ),
        join_fields(split_fields(line)) == line,
    decreases line.len(),
{
    let cut = first_separator(line);
    lemma_first_separator_bounds(line);
    if 0 <= cut < line.len() {
        let rest = line.skip(cut + 1);
        let tail = split_fields(rest);
        let all = split_fields(line);
        lemma_split_then_join(rest);
        assert(all == seq![line.take(cut)] + tail);
        assert(all.skip(1) =~= tail);
        assert(all[0] == line.take(cut));
        assert forall|k: int| 0 <= k < all.len() implies separator_free(#[trigger] all[k]) by {
            if k > 0 {
                assert(all[k] == tail[k - 1]);
            }
        }
        assert(line =~= line.take(cut) + seq![SEPARATOR] + rest);
    } else {
        assert(split_fields(line) == seq![line]);
    }
}

/// The first separator lies within the line, and nothing before it is one.
pub proof fn lemma_first_separator_bounds(line: Seq<char>)
    ensures
        0 <= first_separator(line) <= line.len(),
        forall|i: int| 0 <= i < first_separator(line) ==> line[i] != SEPARATOR,
        first_separator(line) < line.len() ==> line[first_separator(line)] == SEPARATOR,
    decreases line.len(),
{
    if !(line.len() == 0 || line[0] == SEPARATOR) {
        let rest = line.skip(1);
        lemma_first_separator_bounds(rest);
        assert forall|i: int| 0 <= i < first_separator(line) implies line[i] != SEPARATOR by {
            if i > 0 {
                assert(rest[i - 1] == line[i]);
            }
        }
        if first_separator(line) < line.len() {
            assert(rest[first_separator(rest)] == line[first_separator(line)]);
        }
    }
}

/// The characters of `text`, in order.
pub fn chars_of(text: &str) -> (chars: Vec<char>)
    ensures
        chars@ == text@,
{
    let mut chars: Vec<char> = Vec::new();
    for c in it: text.chars()
        invariant
            it.seq() == text@,
            chars@ == it.seq().take(it.index() as int),
    {
        chars.push(c);
    }
    chars
}

/// Splits `line` at every separator and returns the fields in order.
pub fn split_line(line: &str) -> (fields: Vec<String>)
    ensures
        texts(fields@) == split_fields(line@),
        fields@.len() >= 1,
{
    let chars = chars_of(line);
    let n = chars.len();
    let mut fields: Vec<String> = Vec::new();
    let mut start: usize = 0;
    let mut i: usize = 0;
    proof {
        assert(line@.skip(0) =~= line@);
        assert(texts(fields@) + split_fields(line@) =~= split_fields(line@));
    }
    while i < n
        invariant
            chars@ == line@,
            n == chars.len(),
            start <= i <= n,
            forall|j: int| start <= j < i ==> line@[j] != SEPARATOR,
            split_fields(line@) == texts(fields@) + split_fields(line@.skip(start as int)),
        decreases n - i,
    {
        if chars[i] == SEPARATOR {
            let field = line.substring_char(start, i).to_owned();
            proof {
                lemma_split_step(line@, texts(fields@), start as int, i as int);
                assert(texts(fields@.push(field)) =~= texts(fields@) + seq![field@]);
            }
            fields.push(field);
            start = i + 1;
        }
        i += 1;
    }
    let field = line.substring_char(start, n).to_owned();
    proof {
        let rest = line@.skip(start as int);
        lemma_first_separator(rest, rest.len() as int);
        assert(field@ =~= rest);
        assert(texts(fields@.push(field)) =~= texts(fields@) + seq![field@]);
    }
    fields.push(field);
    fields
}

/// One step of splitting from the front: when the field that starts at `start`
/// ends with the separator at `end`, that field is the next one and the rest of
/// the fields are those of what follows the separator.
proof fn lemma_split_step(line: Seq<char>, done: Seq<Seq<char>>, start: int, end: int)
    requires
        0 <= start <= end < line.len(),
        forall|j: int| start <= j < end ==> line[j] != SEPARATOR,
        line[end] == SEPARATOR,
        split_fields(line) == done + split_fields(line.skip(start)),
    ensures
        split_fields(line) == done + seq![line.subrange(start, end)] + split_fields(
            line.skip(end + 1),
        ),
{
    let rest = line.skip(start);
    lemma_first_separator(rest, end - start);
    assert(rest.take(end - start) =~= line.subrange(start, end));
    assert(rest.skip(end - start + 1) =~= line.skip(end + 1));
    assert(done + (seq![line.subrange(start, end)] + split_fields(line.skip(end + 1))) =~= done
        + seq![line.subrange(start, end)] + split_fields(line.skip(end + 1)));
}

} // verus!
