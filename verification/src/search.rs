//! The line filter: the lines of a text that contain a query.

use crate::fold::{lowercase, to_lower};
use crate::text::{
    chars_of, contains_chars, has_substring, lemma_empty_is_substring, split_lines, text_lines,
};
use vstd::prelude::*;

verus! {

/// How a query is compared with a line.
#[derive(Clone, Copy, Debug, PartialEq, Eq, Structural)]
pub enum Mode {
    /// Character for character.
    Sensitive,
    /// After both have been put in lower case.
    Insensitive,
}

/// Whether `line` is one that `query` selects under `mode`.
pub open spec fn line_matches(mode: Mode, query: Seq<char>, line: Seq<char>) -> bool {
    match mode {
        Mode::Sensitive => has_substring(line, query),
        Mode::Insensitive => has_substring(lowercase(line), lowercase(query)),
    }
}

/// `line_matches` for a fixed mode and query, as a predicate on lines.
pub open spec fn matcher(mode: Mode, query: Seq<char>) -> spec_fn(Seq<char>) -> bool {
    |line: Seq<char>| line_matches(mode, query, line)
}

/// The lines of `contents` that `query` selects under `mode`: in the order
/// of the text, as they stand in it, a line as often as it occurs.
pub open spec fn matching_lines(mode: Mode, query: Seq<char>, contents: Seq<char>) -> Seq<
    Seq<char>,
> {
    text_lines(contents).filter(matcher(mode, query))
}

/// A filter whose predicate holds of every item keeps the sequence as it is.
pub proof fn lemma_filter_keeps_all<A>(s: Seq<A>, pred: spec_fn(A) -> bool)
    requires
        forall|i: int| 0 <= i < s.len() ==> pred(#[trigger] s[i]),
    ensures
        s.filter(pred) == s,
    decreases s.len(),
{
    reveal(Seq::filter);
    if s.len() > 0 {
        lemma_filter_keeps_all(s.drop_last(), pred);
        assert(s.drop_last().push(s.last()) =~= s);
    }
}

/// Filtering by a predicate is the same as filtering first by a weaker one.
pub proof fn lemma_filter_through_weaker<A>(
    s: Seq<A>,
    strong: spec_fn(A) -> bool,
    weak: spec_fn(A) -> bool,
)
    requires
        forall|i: int| 0 <= i < s.len() && strong(#[trigger] s[i]) ==> weak(s[i]),
    ensures
        s.filter(strong) == s.filter(weak).filter(strong),
    decreases s.len(),
{
    reveal(Seq::filter);
    if s.len() > 0 {
        let init = s.drop_last();
        lemma_filter_through_weaker(init, strong, weak);
        assert(init.push(s.last()) =~= s);
        init.filter(weak).lemma_filter_push(s.last(), strong);
    }
}

/// The lines of `contents` that `query` selects under `mode`, each a slice of
/// `contents`. The empty query selects every line.
pub fn filter_lines<'a>(query: &str, contents: &'a str, mode: Mode) -> (found: Vec<&'a str>)
    ensures
        found.deep_view() == matching_lines(mode, query@, contents@),
        query@.len() == 0 ==> found.deep_view() == text_lines(contents@),
{
    let lines = split_lines(contents);
    let needle: Vec<char> = match mode {
        Mode::Sensitive => chars_of(query),
        Mode::Insensitive => {
            let folded = to_lower(query);
            chars_of(folded.as_str())
        },
    };
    let ghost all = lines.deep_view();
    let ghost pred = matcher(mode, query@);
    let mut found: Vec<&'a str> = Vec::new();
    let mut i: usize = 0;
    proof {
        reveal(Seq::filter);
        assert(all.take(0).filter(pred) =~= found.deep_view());
    }
    while i < lines.len()
        invariant
            i <= lines.len(),
            all == lines.deep_view(),
            all == text_lines(contents@),
            pred == matcher(mode, query@),
            mode == Mode::Sensitive ==> needle@ == query@,
            mode == Mode::Insensitive ==> needle@ == lowercase(query@),
            query@.len() == 0 ==> needle@.len() == 0,
            found.deep_view() == all.take(i as int).filter(pred),
            query@.len() == 0 ==> found.deep_view() == all.take(i as int),
        decreases lines.len() - i,
    {
        let line: &'a str = lines[i];
        let hay: Vec<char> = match mode {
            Mode::Sensitive => chars_of(line),
            Mode::Insensitive => {
                let folded = to_lower(line);
                chars_of(folded.as_str())
            },
        };
        let hit = contains_chars(&hay, &needle);
        proof {
            assert(all.take(i + 1) =~= all.take(i as int).push(line@));
            all.take(i as int).lemma_filter_push(line@, pred);
            if query@.len() == 0 {
                lemma_empty_is_substring(hay@, needle@);
            }
        }
        if hit {
            let ghost before = found.deep_view();
            found.push(line);
            assert(found.deep_view() =~= before.push(line@));
        }
        i += 1;
    }
    assert(all.take(i as int) =~= all);
    found
}

/// The lines of `contents` in which `query` stands character for character.
pub fn search<'a>(query: &str, contents: &'a str) -> (found: Vec<&'a str>)
    ensures
        found.deep_view() == matching_lines(Mode::Sensitive, query@, contents@),
        query@.len() == 0 ==> found.deep_view() == text_lines(contents@),
{
    filter_lines(query, contents, Mode::Sensitive)
}

/// The lines of `contents` whose lower-case form holds the lower-case form of
/// `query`. The lines come back as they stand in `contents`, not folded.
pub fn search_insensitive<'a>(query: &str, contents: &'a str) -> (found: Vec<&'a str>)
    ensures
        found.deep_view() == matching_lines(Mode::Insensitive, query@, contents@),
        query@.len() == 0 ==> found.deep_view() == text_lines(contents@),
{
    filter_lines(query, contents, Mode::Insensitive)
}

/// The positions, among the lines of `contents`, of the lines that `query`
/// selects under `mode`.
pub open spec fn hit_indices(mode: Mode, query: Seq<char>, contents: Seq<char>) -> Set<int> {
    Set::new(
        |i: int|
            0 <= i < text_lines(contents).len() && line_matches(
                mode,
                query,
                text_lines(contents)[i],
            ),
    )
}

/// Comparison without regard to case is exact comparison of the lower-case
/// forms: a line is selected exactly when its lower-case form holds the
/// lower-case form of the query, and the lines selected are those lines of
/// the text, as they stand in it.
pub proof fn lemma_insensitive_is_sensitive_on_folded(query: Seq<char>, contents: Seq<char>)
    ensures
        forall|line: Seq<char>|
            line_matches(Mode::Insensitive, query, line) == line_matches(
                Mode::Sensitive,
                lowercase(query),
                lowercase(line),
            ),
        matching_lines(Mode::Insensitive, query, contents) == text_lines(contents).filter(
            |line: Seq<char>| line_matches(Mode::Sensitive, lowercase(query), lowercase(line)),
        ),
{
    let folded = |line: Seq<char>| line_matches(Mode::Sensitive, lowercase(query), lowercase(line));
    assert(matcher(Mode::Insensitive, query) =~= folded);
}

/// Where putting a line and the query in lower case loses no occurrence of
/// the query in any line of the text, comparison without regard to case
/// selects every line that exact comparison selects: the positions of the
/// one are among those of the other, and the lines of exact comparison are
/// those among the others that hold the query itself.
pub proof fn lemma_insensitive_keeps_sensitive_hits(query: Seq<char>, contents: Seq<char>)
    requires
        forall|i: int|
            0 <= i < text_lines(contents).len() && has_substring(
                #[trigger] text_lines(contents)[i],
                query,
            ) ==> has_substring(lowercase(text_lines(contents)[i]), lowercase(query)),
    ensures
        hit_indices(Mode::Sensitive, query, contents).subset_of(
            hit_indices(Mode::Insensitive, query, contents),
        ),
        matching_lines(Mode::Sensitive, query, contents) == matching_lines(
            Mode::Insensitive,
            query,
            contents,
        ).filter(matcher(Mode::Sensitive, query)),
        matching_lines(Mode::Sensitive, query, contents).len() <= matching_lines(
            Mode::Insensitive,
            query,
            contents,
        ).len(),
{
    let lines = text_lines(contents);
    let exact = matcher(Mode::Sensitive, query);
    let loose = matcher(Mode::Insensitive, query);
    lemma_filter_through_weaker(lines, exact, loose);
    lines.filter(loose).lemma_filter_len(exact);
}

/// The empty query selects every line of a text, where case is regarded.
/// (Where it is not, the functions that search state the same of their
/// result.)
pub proof fn lemma_empty_query_selects_all(contents: Seq<char>)
    ensures
        matching_lines(Mode::Sensitive, Seq::<char>::empty(), contents) == text_lines(contents),
{
    let lines = text_lines(contents);
    let pred = matcher(Mode::Sensitive, Seq::<char>::empty());
    assert forall|i: int| 0 <= i < lines.len() implies pred(#[trigger] lines[i]) by {
        lemma_empty_is_substring(lines[i], Seq::<char>::empty());
    }
    lemma_filter_keeps_all(lines, pred);
}

/// Two searches for the same query in the same text under the same mode give
/// the same lines in the same order.
pub proof fn lemma_same_inputs_same_lines(
    first: Vec<&str>,
    second: Vec<&str>,
    query: &str,
    contents: &str,
    mode: Mode,
)
    requires
        first.deep_view() == matching_lines(mode, query@, contents@),
        second.deep_view() == matching_lines(mode, query@, contents@),
    ensures
        first.len() == second.len(),
        forall|i: int| 0 <= i < first.len() ==> first[i]@ == second[i]@,
{
    assert(first.deep_view().len() == second.deep_view().len());
    assert forall|i: int| 0 <= i < first.len() implies first[i]@ == second[i]@ by {
        assert(first.deep_view()[i] == first[i]@);
        assert(second.deep_view()[i] == second[i]@);
    }
}

} // verus!
