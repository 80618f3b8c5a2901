//! Parsing of the completion client's decomposition of a query into
//! questions and non-questions.

use vstd::prelude::*;
use crate::text::{
    chars_of, copy_range, find, find_from, split, split_on, string_of, trim, trimmed, vec_views,
    views,
};

verus! {

/// The header that introduces the enumerated questions.
pub open spec fn questions_header() -> Seq<char> {
    "**Questions:**"@
}

/// The header that introduces the enumerated non-questions.
pub open spec fn non_questions_header() -> Seq<char> {
    "**Non-Questions:**"@
}

/// A decimal digit.
pub open spec fn is_digit(c: char) -> bool {
    '0' <= c <= '9'
}

/// The number of decimal digits that `line` begins with.
pub open spec fn leading_digits(line: Seq<char>) -> nat
    decreases line.len(),
{
    if line.len() > 0 && is_digit(line[0]) {
        1 + leading_digits(line.skip(1))
    } else {
        0
    }
}

/// The line without its ordinal marker: where it begins with a run of
/// decimal digits and a full stop right after them, what follows the full
/// stop; else the line as it is.
pub open spec fn without_ordinal(line: Seq<char>) -> Seq<char> {
    let k = leading_digits(line);
    if k > 0 && k < line.len() && line[k as int] == '.' {
        line.skip(k as int + 1)
    } else {
        line
    }
}

/// The items among the given lines: a blank line gives none, and any other
/// line gives what is left of it when its ordinal marker and then the
/// whitespace at both ends are taken off.
pub open spec fn items_in(lines: Seq<Seq<char>>) -> Seq<Seq<char>>
    decreases lines.len(),
{
    if lines.len() == 0 {
        Seq::empty()
    } else if trim(lines.last()).len() == 0 {
        items_in(lines.drop_last())
    } else {
        items_in(lines.drop_last()).push(trim(without_ordinal(lines.last())))
    }
}

/// The items of a section of text, line by line.
pub open spec fn items_of(section: Seq<char>) -> Seq<Seq<char>> {
    items_in(split_on(section, seq!['\n']))
}

/// The questions and the non-questions of a decomposition. The
/// non-questions header must split the text in exactly two parts, else
/// both lists are empty. The questions are the items of all that follows
/// the questions header in the first part, and there are none where that
/// header is missing. The non-questions are the items of the second part.
pub open spec fn decomposition(input: Seq<char>) -> (Seq<Seq<char>>, Seq<Seq<char>>) {
    let parts = split_on(input, non_questions_header());
    if parts.len() == 2 {
        let questions = match find_from(parts[0], questions_header(), 0) {
            Some(i) => items_of(parts[0].skip(i + questions_header().len())),
            None => Seq::empty(),
        };
        (questions, items_of(parts[1]))
    } else {
        (Seq::empty(), Seq::empty())
    }
}

/// A text without the non-questions header decomposes into nothing.
pub proof fn lemma_missing_header_gives_nothing(input: Seq<char>)
    requires
        find_from(input, non_questions_header(), 0) is None,
    ensures
        decomposition(input) == (Seq::<Seq<char>>::empty(), Seq::<Seq<char>>::empty()),
{
    assert(split_on(input, non_questions_header()) == seq![input]);
}

/// The line without its ordinal marker.
pub fn strip_ordinal(line: &Vec<char>) -> (rest: Vec<char>)
    ensures
        rest@ == without_ordinal(line@),
{
    let mut k: usize = 0;
    assert(line@.skip(0) =~= line@);
    while k < line.len() && line[k] >= '0' && line[k] <= '9'
        invariant
            k <= line.len(),
            leading_digits(line@) == k + leading_digits(line@.skip(k as int)),
        decreases line.len() - k,
    {
        assert(line@.skip(k as int).skip(1) =~= line@.skip(k + 1));
        k += 1;
    }
    let end = line.len();
    if k > 0 && k < end && line[k] == '.' {
        let rest = copy_range(line, k + 1, end);
        assert(rest@ =~= line@.skip(k + 1));
        rest
    } else {
        let rest = copy_range(line, 0, end);
        assert(rest@ =~= line@);
        rest
    }
}

/// The items of a section of text.
pub fn section_items(section: &Vec<char>) -> (items: Vec<String>)
    ensures
        views(items@) == items_of(section@),
{
    let mut newline: Vec<char> = Vec::new();
    newline.push('\n');
    assert(newline@ =~= seq!['\n']);
    let lines = split(section, &newline);
    let ghost all = vec_views(lines@);
    let mut items: Vec<String> = Vec::new();
    let mut i: usize = 0;
    assert(views(items@) =~= items_in(all.take(0)));
    while i < lines.len()
        invariant
            i <= lines.len(),
            all == vec_views(lines@),
            views(items@) == items_in(all.take(i as int)),
        decreases lines.len() - i,
    {
        let line = &lines[i];
        assert(all.take(i + 1).drop_last() =~= all.take(i as int));
        assert(all.take(i + 1).last() == line@);
        if trimmed(line).len() > 0 {
            let item = string_of(&trimmed(&strip_ordinal(line)));
            let ghost prev = views(items@);
            items.push(item);
            assert(views(items@) =~= prev.push(item@));
        }
        i += 1;
    }
    assert(all.take(lines.len() as int) =~= all);
    items
}

/// The questions and the non-questions that the completion client found
/// in a query, as `decomposition` reads them off its answer.
pub fn split_questions_and_non_questions(input: &str) -> (lists: (Vec<String>, Vec<String>))
    ensures
        views(lists.0@) == decomposition(input@).0,
        views(lists.1@) == decomposition(input@).1,
{
    let text = chars_of(input);
    let non_questions_header = chars_of("**Non-Questions:**");
    let questions_header = chars_of("**Questions:**");
    proof {
        reveal_strlit("**Non-Questions:**");
        reveal_strlit("**Questions:**");
    }
    let parts = split(&text, &non_questions_header);
    if parts.len() != 2 {
        return (Vec::new(), Vec::new());
    }
    assert(vec_views(parts@)[0] == parts@[0]@);
    assert(vec_views(parts@)[1] == parts@[1]@);
    let first = &parts[0];
    let found = find(first, &questions_header, 0);
    let questions = match found {
        Some(i) => {
            let end = first.len();
            let rest = copy_range(first, i + questions_header.len(), end);
            assert(rest@ =~= first@.skip(i + questions_header@.len()));
            section_items(&rest)
        },
        None => Vec::new(),
    };
    let non_questions = section_items(&parts[1]);
    (questions, non_questions)
}

} // verus!
