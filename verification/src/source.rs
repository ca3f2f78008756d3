//! Finding the directive lines of a source file: they stand in its comments, behind a marker.

use vstd::prelude::*;
use crate::model::{views, views_push};
use crate::text::{chars_of, slice, string_from, trim, trimmed};

verus! {

/// Where the line that starts at `from` ends: at the next line feed, or at the end of the text.
pub open spec fn line_end(s: Seq<char>, from: int) -> int
    decreases s.len() - from,
{
    if 0 <= from < s.len() && s[from] != '\n' {
        line_end(s, from + 1)
    } else {
        from
    }
}

/// A line ends inside the text, not before where it starts.
pub proof fn line_ends(s: Seq<char>, from: int)
    requires
        0 <= from <= s.len(),
    ensures
        from <= line_end(s, from) <= s.len(),
    decreases s.len() - from,
{
    if from < s.len() && s[from] != '\n' {
        line_ends(s, from + 1);
    }
}

/// What a line comments, if it is a comment: the line is one if `//` opens it behind any
/// whitespace, and its text is what follows, without the whitespace at both ends.
pub open spec fn comment_text(line: Seq<char>) -> Option<Seq<char>> {
    let text = trimmed(line);
    if text.len() >= 2 && text[0] == '/' && text[1] == '/' {
        Some(trimmed(text.skip(2)))
    } else {
        None
    }
}

/// The comment texts of the lines that start at `from` or later, in file order.
pub open spec fn comments_from(s: Seq<char>, from: int) -> Seq<Seq<char>>
    decreases s.len() + 1 - from,
    via comments_from_ends
{
    if 0 <= from < s.len() {
        let end = line_end(s, from);
        match comment_text(s.subrange(from, end)) {
            Some(text) => seq![text] + comments_from(s, end + 1),
            None => comments_from(s, end + 1),
        }
    } else {
        Seq::empty()
    }
}

#[via_fn]
proof fn comments_from_ends(s: Seq<char>, from: int) {
    if 0 <= from < s.len() {
        line_ends(s, from);
    }
}

/// The comment texts of a whole file: one for each line that is a comment, wherever in the
/// file it stands.
pub open spec fn comment_texts(file: Seq<char>) -> Seq<Seq<char>> {
    comments_from(file, 0)
}

/// Collects the text of every comment line of a source file.
pub fn get_comment_texts(file: &str) -> (r: Vec<String>)
    ensures
        views(r@) == comment_texts(file@),
{
    let chars = chars_of(file);
    let mut texts: Vec<String> = Vec::new();
    let mut from: usize = 0;
    assert(views(texts@) =~= Seq::<Seq<char>>::empty());
    while from < chars.len()
        invariant
            from <= chars.len(),
            chars@ == file@,
            comment_texts(file@) == views(texts@) + comments_from(chars@, from as int),
        decreases chars.len() - from,
    {
        let mut end: usize = from;
        while end < chars.len() && chars[end] != '\n'
            invariant
                from <= end <= chars.len(),
                line_end(chars@, from as int) == line_end(chars@, end as int),
            decreases chars.len() - end,
        {
            end += 1;
        }
        let text = trim(&slice(&chars, from, end));
        if text.len() >= 2 && text[0] == '/' && text[1] == '/' {
            let comment = trim(&slice(&text, 2, text.len()));
            let comment = string_from(&comment);
            proof {
                assert(text@.skip(2) =~= text@.subrange(2, text@.len() as int));
                views_push(texts@, comment);
                let rest = comments_from(chars@, end + 1);
                assert(views(texts@) + (seq![comment@] + rest) =~= views(texts@).push(comment@)
                    + rest);
            }
            texts.push(comment);
        }
        if end < chars.len() {
            from = end + 1;
        } else {
            assert(comments_from(chars@, end + 1) =~= comments_from(chars@, end as int));
            from = end;
        }
    }
    assert(comments_from(chars@, from as int) =~= Seq::<Seq<char>>::empty());
    texts
}

/// The marker that opens a directive inside a comment.
pub open spec fn marker() -> Seq<char> {
    seq!['f', 'o', 'o', 'f', ':']
}

/// The directive that a comment text holds, if it holds one: what follows the marker, without
/// the whitespace at both ends.
pub open spec fn directive_text(comment: Seq<char>) -> Option<Seq<char>> {
    if comment.len() >= 5 && comment.take(5) == marker() {
        Some(trimmed(comment.skip(5)))
    } else {
        None
    }
}

/// The directives that the comment texts hold, in the same order.
pub open spec fn directive_texts(comments: Seq<Seq<char>>) -> Seq<Seq<char>>
    decreases comments.len(),
{
    if comments.len() == 0 {
        Seq::empty()
    } else {
        match directive_text(comments.last()) {
            Some(text) => directive_texts(comments.drop_last()).push(text),
            None => directive_texts(comments.drop_last()),
        }
    }
}

/// Picks the directive candidates out of the comment texts of a file.
pub fn get_directive_texts(comments: &Vec<String>) -> (r: Vec<String>)
    ensures
        views(r@) == directive_texts(views(comments@)),
{
    let mut texts: Vec<String> = Vec::new();
    let ghost all = views(comments@);
    assert(views(texts@) =~= Seq::<Seq<char>>::empty());
    assert(all.take(0) =~= Seq::<Seq<char>>::empty());
    let mut i: usize = 0;
    while i < comments.len()
        invariant
            i <= comments.len(),
            all == views(comments@),
            views(texts@) == directive_texts(all.take(i as int)),
        decreases comments.len() - i,
    {
        let comment = chars_of(comments[i].as_str());
        proof {
            assert(all.take(i + 1).drop_last() =~= all.take(i as int));
            assert(all.take(i + 1).last() == comment@);
        }
        if comment.len() >= 5 && comment[0] == 'f' && comment[1] == 'o' && comment[2] == 'o'
            && comment[3] == 'f' && comment[4] == ':' {
            assert(comment@.take(5) =~= marker());
            let text = trim(&slice(&comment, 5, comment.len()));
            let text = string_from(&text);
            proof {
                assert(comment@.skip(5) =~= comment@.subrange(5, comment@.len() as int));
                views_push(texts@, text);
            }
            texts.push(text);
        } else {
            assert(comment@.len() >= 5 ==> comment@.take(5) != marker()) by {
                if comment@.len() >= 5 && comment@.take(5) == marker() {
                    assert(comment@.take(5)[0] == 'f');
                    assert(comment@.take(5)[1] == 'o');
                    assert(comment@.take(5)[2] == 'o');
                    assert(comment@.take(5)[3] == 'f');
                    assert(comment@.take(5)[4] == ':');
                }
            }
        }
        i += 1;
    }
    assert(all.take(i as int) =~= all);
    texts
}

} // verus!
