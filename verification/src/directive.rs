//! Tool-use directives: call text that an answer holds between an opening
//! and a closing tag. The tags are matched as literal text.
use vstd::prelude::*;
use crate::text::{chars_of, text_of};

verus! {

/// Whether `tag` stands in `text` at position `at`.
pub open spec fn occurs_at(text: Seq<char>, tag: Seq<char>, at: int) -> bool {
    0 <= at && at + tag.len() <= text.len() && text.subrange(at, at + tag.len()) == tag
}

/// The first position at or after `from` where `tag` stands in `text`.
pub open spec fn find(text: Seq<char>, tag: Seq<char>, from: int) -> Option<int>
    decreases text.len() - from,
{
    if from < 0 || from + tag.len() > text.len() {
        None
    } else if occurs_at(text, tag, from) {
        Some(from)
    } else if from >= text.len() {
        None
    } else {
        find(text, tag, from + 1)
    }
}

/// Where a directive lies in a text: the opening tag starts at `start`, the
/// call text is `text[inner..close]`, the closing tag ends at `end`.
pub struct Span {
    pub start: int,
    pub inner: int,
    pub close: int,
    pub end: int,
}

/// The first directive at or after `from`: the first opening tag, up to the
/// first closing tag that follows it. An opening tag that no closing tag
/// follows is no directive.
pub open spec fn next_directive(text: Seq<char>, open: Seq<char>, close: Seq<char>, from: int) -> Option<
    Span,
> {
    match find(text, open, from) {
        None => None,
        Some(start) => match find(text, close, start + open.len()) {
            None => None,
            Some(at) => Some(
                Span { start, inner: start + open.len(), close: at, end: at + close.len() },
            ),
        },
    }
}

/// The call texts of the directives of `text` from `from` on, in the order
/// in which they appear.
pub open spec fn directives_from(text: Seq<char>, open: Seq<char>, close: Seq<char>, from: int) -> Seq<
    Seq<char>,
>
    decreases text.len() - from,
{
    match next_directive(text, open, close, from) {
        None => Seq::empty(),
        Some(span) => if from < span.end <= text.len() {
            seq![text.subrange(span.inner, span.close)] + directives_from(text, open, close, span.end)
        } else {
            Seq::empty()
        },
    }
}

/// What is left of `text` from `from` on when every directive is taken out,
/// tags included.
pub open spec fn stripped_from(text: Seq<char>, open: Seq<char>, close: Seq<char>, from: int) -> Seq<
    char,
>
    decreases text.len() - from,
{
    match next_directive(text, open, close, from) {
        None => text.subrange(from, text.len() as int),
        Some(span) => if from < span.end <= text.len() {
            text.subrange(from, span.start) + stripped_from(text, open, close, span.end)
        } else {
            text.subrange(from, text.len() as int)
        },
    }
}

/// The tag that opens a tool-use directive.
pub open spec fn open_tag() -> Seq<char> {
    "<ToolUse>"@
}

/// The tag that closes a tool-use directive.
pub open spec fn close_tag() -> Seq<char> {
    "</ToolUse>"@
}

/// The call texts of the tool-use directives of `text`, in order of
/// appearance.
pub open spec fn tool_uses(text: Seq<char>) -> Seq<Seq<char>> {
    directives_from(text, open_tag(), close_tag(), 0)
}

/// `text` without its tool-use directives.
pub open spec fn without_tool_uses(text: Seq<char>) -> Seq<char> {
    stripped_from(text, open_tag(), close_tag(), 0)
}

/// What `find` returns is a place at or after `from` where the tag stands,
/// and the tag stands nowhere between `from` and that place.
pub proof fn lemma_find(text: Seq<char>, tag: Seq<char>, from: int)
    requires
        0 <= from,
    ensures
        match find(text, tag, from) {
            Some(at) => from <= at && occurs_at(text, tag, at) && forall|i: int|
                from <= i < at ==> !occurs_at(text, tag, i),
            None => forall|i: int| from <= i ==> !occurs_at(text, tag, i),
        },
    decreases text.len() - from,
{
    if from + tag.len() <= text.len() && !occurs_at(text, tag, from) {
        if from < text.len() {
            lemma_find(text, tag, from + 1);
        } else {
            assert(text.subrange(from, from + tag.len()) =~= tag);
        }
    }
}

/// A directive lies within the text, its parts in order.
pub proof fn lemma_next_directive(text: Seq<char>, open: Seq<char>, close: Seq<char>, from: int)
    requires
        0 <= from,
    ensures
        next_directive(text, open, close, from) matches Some(span) ==> from <= span.start
            && span.inner == span.start + open.len() && span.inner <= span.close && span.end
            == span.close + close.len() && span.end <= text.len(),
{
    lemma_find(text, open, from);
    if let Some(start) = find(text, open, from) {
        lemma_find(text, close, start + open.len());
    }
}

/// Taking the directives out of a text that holds none gives the text back.
pub proof fn lemma_strip_without_directives(text: Seq<char>, open: Seq<char>, close: Seq<char>)
    requires
        open.len() + close.len() > 0,
        directives_from(text, open, close, 0).len() == 0,
    ensures
        stripped_from(text, open, close, 0) == text,
{
    lemma_next_directive(text, open, close, 0);
    assert(text.subrange(0, text.len() as int) =~= text);
}

/// Taking the tool-use directives out of a text that holds none gives the
/// text back.
pub proof fn lemma_strip_without_tool_uses(text: Seq<char>)
    requires
        tool_uses(text).len() == 0,
    ensures
        without_tool_uses(text) == text,
{
    reveal_strlit("<ToolUse>");
    lemma_strip_without_directives(text, open_tag(), close_tag());
}

/// The number of characters in all of `texts` together.
pub open spec fn total_len(texts: Seq<Seq<char>>) -> nat
    decreases texts.len(),
{
    if texts.len() == 0 {
        0
    } else {
        texts[0].len() + total_len(texts.drop_first())
    }
}

/// Nothing is lost and nothing is made up: every character of the text is
/// kept, or belongs to the call text of a directive, or to one of the two
/// tags of a directive.
pub proof fn lemma_stripped_len(text: Seq<char>, open: Seq<char>, close: Seq<char>, from: int)
    requires
        0 <= from <= text.len(),
    ensures
        stripped_from(text, open, close, from).len() + total_len(directives_from(text, open, close, from))
            + directives_from(text, open, close, from).len() * (open.len() + close.len()) == text.len()
            - from,
    decreases text.len() - from,
{
    lemma_next_directive(text, open, close, from);
    let tags = open.len() + close.len();
    assert(0 * tags == 0) by (nonlinear_arith);
    match next_directive(text, open, close, from) {
        None => {},
        Some(span) => {
            if from < span.end <= text.len() {
                lemma_stripped_len(text, open, close, span.end);
                let found = directives_from(text, open, close, from);
                let later = directives_from(text, open, close, span.end);
                let rest = later.len();
                assert(found.len() == rest + 1);
                assert(found.drop_first() =~= later);
                assert(found[0].len() == span.close - span.inner);
                assert((rest + 1) * tags == rest * tags + tags) by (nonlinear_arith);
            }
        },
    }
}

fn stands_at(text: &Vec<char>, tag: &Vec<char>, at: usize) -> (r: bool)
    requires
        at + tag.len() <= text.len(),
    ensures
        r == occurs_at(text@, tag@, at as int),
{
    let mut i: usize = 0;
    while i < tag.len()
        invariant
            at + tag.len() <= text.len(),
            i <= tag.len(),
            forall|j: int| 0 <= j < i ==> text@[at + j] == tag@[j],
        decreases tag.len() - i,
    {
        if text[at + i] != tag[i] {
            proof {
                assert(text@.subrange(at as int, at + tag.len())[i as int] == text@[at + i]);
            }
            return false;
        }
        i += 1;
    }
    proof {
        assert(text@.subrange(at as int, at + tag.len()) =~= tag@);
    }
    true
}

fn find_tag(text: &Vec<char>, tag: &Vec<char>, from: usize) -> (r: Option<usize>)
    ensures
        match r {
            Some(at) => find(text@, tag@, from as int) == Some(at as int),
            None => find(text@, tag@, from as int) is None,
        },
{
    if tag.len() > text.len() || from > text.len() - tag.len() {
        return None;
    }
    let last = text.len() - tag.len();
    let mut at: usize = from;
    loop
        invariant
            last == text.len() - tag.len(),
            from <= at <= last,
            find(text@, tag@, from as int) == find(text@, tag@, at as int),
        decreases last - at,
    {
        if stands_at(text, tag, at) {
            return Some(at);
        }
        if at == last {
            assert(find(text@, tag@, at + 1) is None);
            return None;
        }
        at += 1;
    }
}

fn next_span(text: &Vec<char>, open: &Vec<char>, close: &Vec<char>, from: usize) -> (r: Option<
    (usize, usize, usize, usize),
>)
    ensures
        match r {
            Some((start, inner, at, end)) => next_directive(text@, open@, close@, from as int) == Some(
                Span { start: start as int, inner: inner as int, close: at as int, end: end as int },
            ) && from <= start <= inner <= at <= end <= text.len() && end == at + close.len() && inner
                == start + open.len(),
            None => next_directive(text@, open@, close@, from as int) is None,
        },
{
    proof {
        lemma_next_directive(text@, open@, close@, from as int);
        lemma_find(text@, open@, from as int);
    }
    match find_tag(text, open, from) {
        None => None,
        Some(start) => {
            assert(start + open.len() <= text.len());
            let inner = start + open.len();
            proof {
                lemma_find(text@, close@, inner as int);
            }
            match find_tag(text, close, inner) {
                None => None,
                Some(at) => {
                    assert(at + close.len() <= text.len());
                    Some((start, inner, at, at + close.len()))
                },
            }
        },
    }
}

/// The call texts of the tool-use directives of `answer`, in order of
/// appearance.
pub fn extract_tool_uses(answer: &str) -> (calls: Vec<String>)
    ensures
        calls@.len() == tool_uses(answer@).len(),
        forall|i: int| 0 <= i < calls@.len() ==> (#[trigger] calls@[i])@ == tool_uses(answer@)[i],
{
    let text = chars_of(answer);
    let open = chars_of("<ToolUse>");
    let close = chars_of("</ToolUse>");
    proof {
        reveal_strlit("<ToolUse>");
        reveal_strlit("</ToolUse>");
    }
    let mut calls: Vec<String> = Vec::new();
    let ghost mut found: Seq<Seq<char>> = Seq::empty();
    let mut from: usize = 0;
    loop
        invariant
            text@ == answer@,
            open@ == open_tag(),
            close@ == close_tag(),
            open@.len() == 9,
            close@.len() == 10,
            from <= text@.len(),
            calls@.len() == found.len(),
            forall|i: int| 0 <= i < calls@.len() ==> (#[trigger] calls@[i])@ == found[i],
            tool_uses(answer@) == found + directives_from(text@, open@, close@, from as int),
        decreases text@.len() - from,
    {
        match next_span(&text, &open, &close, from) {
            None => {
                proof {
                    assert(found + Seq::<Seq<char>>::empty() =~= found);
                }
                return calls;
            },
            Some((_, inner, at, end)) => {
                let call = text_of(&text, inner, at);
                proof {
                    let rest = directives_from(text@, open@, close@, end as int);
                    assert(found + (seq![call@] + rest) =~= found.push(call@) + rest);
                    found = found.push(call@);
                }
                calls.push(call);
                from = end;
            },
        }
    }
}

/// `answer` without its tool-use directives: every directive is removed,
/// tags included, and the text around them stays in order.
pub fn strip_tool_uses(answer: &str) -> (clean: String)
    ensures
        clean@ == without_tool_uses(answer@),
{
    let text = chars_of(answer);
    let open = chars_of("<ToolUse>");
    let close = chars_of("</ToolUse>");
    proof {
        reveal_strlit("<ToolUse>");
        reveal_strlit("</ToolUse>");
    }
    let mut clean = String::new();
    let mut from: usize = 0;
    loop
        invariant
            text@ == answer@,
            open@ == open_tag(),
            close@ == close_tag(),
            open@.len() == 9,
            close@.len() == 10,
            from <= text@.len(),
            without_tool_uses(answer@) == clean@ + stripped_from(text@, open@, close@, from as int),
        decreases text@.len() - from,
    {
        match next_span(&text, &open, &close, from) {
            None => {
                let rest = text_of(&text, from, text.len());
                clean.append(rest.as_str());
                return clean;
            },
            Some((start, _, _, end)) => {
                let kept = text_of(&text, from, start);
                proof {
                    let rest = stripped_from(text@, open@, close@, end as int);
                    assert(clean@ + (kept@ + rest) =~= (clean@ + kept@) + rest);
                }
                clean.append(kept.as_str());
                from = end;
            },
        }
    }
}

} // verus!
