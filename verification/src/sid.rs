//! The security identifier of a user, as `wmic useraccount get sid` prints
//! it: a line with the heading, then a line with the identifier.

use crate::text::{chars_of, trim, trim_range};
use vstd::prelude::*;

verus! {

/// The characters of `text` before its first line break, or all of them if
/// it has none.
pub open spec fn first_line(text: Seq<char>) -> Seq<char>
    decreases text.len(),
{
    if text.len() == 0 || text.first() == '\n' {
        Seq::empty()
    } else {
        seq![text.first()] + first_line(text.drop_first())
    }
}

/// The characters of `text` after its first line break, if it has one.
pub open spec fn after_first_line(text: Seq<char>) -> Option<Seq<char>>
    decreases text.len(),
{
    if text.len() == 0 {
        None
    } else if text.first() == '\n' {
        Some(text.drop_first())
    } else {
        after_first_line(text.drop_first())
    }
}

/// The second line of `text`, if anything follows the first line break.
pub open spec fn second_line(text: Seq<char>) -> Option<Seq<char>> {
    match after_first_line(text) {
        Some(rest) => if rest.len() > 0 {
            Some(first_line(rest))
        } else {
            None
        },
        None => None,
    }
}

/// The identifier in the output of `wmic`: the second line without the white
/// space around it.
pub open spec fn sid_of(output: Seq<char>) -> Option<Seq<char>> {
    match second_line(output) {
        Some(line) => Some(trim(line)),
        None => None,
    }
}

proof fn lemma_line_ends_at(text: Seq<char>, end: int)
    requires
        0 <= end <= text.len(),
        forall|i: int| 0 <= i < end ==> #[trigger] text[i] != '\n',
        end < text.len() ==> text[end] == '\n',
    ensures
        first_line(text) == text.subrange(0, end),
        after_first_line(text) == if end < text.len() {
            Some(text.subrange(end + 1, text.len() as int))
        } else {
            None
        },
    decreases end,
{
    if end == 0 {
        assert(text.subrange(0, 0) =~= Seq::<char>::empty());
        if text.len() > 0 {
            assert(text.drop_first() =~= text.subrange(1, text.len() as int));
        }
    } else {
        let rest = text.drop_first();
        assert(text[0] != '\n');
        assert forall|i: int| 0 <= i < end - 1 implies #[trigger] rest[i] != '\n' by {
            assert(rest[i] == text[i + 1]);
        }
        lemma_line_ends_at(rest, end - 1);
        assert(seq![text.first()] + rest.subrange(0, end - 1) =~= text.subrange(0, end));
        if end < text.len() {
            assert(rest.subrange(end, rest.len() as int) =~= text.subrange(
                end + 1,
                text.len() as int,
            ));
        }
    }
}

/// Finds the end of the line that begins at `from`.
fn line_end(chars: &Vec<char>, from: usize) -> (end: usize)
    requires
        from <= chars.len(),
    ensures
        from <= end <= chars.len(),
        first_line(chars@.subrange(from as int, chars@.len() as int)) == chars@.subrange(
            from as int,
            end as int,
        ),
        after_first_line(chars@.subrange(from as int, chars@.len() as int)) == if end
            < chars.len() {
            Some(chars@.subrange(end + 1, chars@.len() as int))
        } else {
            None
        },
{
    let mut end: usize = from;
    while end < chars.len() && chars[end] != '\n'
        invariant
            from <= end <= chars.len(),
            forall|i: int| from <= i < end ==> #[trigger] chars@[i] != '\n',
        decreases chars.len() - end,
    {
        end += 1;
    }
    proof {
        let text = chars@.subrange(from as int, chars@.len() as int);
        assert forall|i: int| 0 <= i < end - from implies #[trigger] text[i] != '\n' by {
            assert(text[i] == chars@[from + i]);
        }
        lemma_line_ends_at(text, end - from);
        assert(text.subrange(0, end - from) =~= chars@.subrange(from as int, end as int));
        if end < chars.len() {
            assert(text.subrange(end - from + 1, text.len() as int) =~= chars@.subrange(
                end + 1,
                chars@.len() as int,
            ));
        }
    }
    end
}

/// Reads the identifier from the output of `wmic`; `None` where the output
/// has no second line.
pub fn sid_from_wmic(output: &str) -> (sid: Option<String>)
    ensures
        match sid {
            Some(sid) => sid_of(output@) == Some(sid@),
            None => sid_of(output@) is None,
        },
{
    let chars = chars_of(output);
    assert(chars@.subrange(0, chars@.len() as int) =~= chars@);
    let heading_end = line_end(&chars, 0);
    if heading_end >= chars.len() || heading_end + 1 == chars.len() {
        return None;
    }
    let begin = heading_end + 1;
    let end = line_end(&chars, begin);
    let (from, to) = trim_range(&chars, begin, end);
    Some(output.substring_char(from, to).to_owned())
}

} // verus!
