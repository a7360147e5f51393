//! How a user's words become a full-text query, over the words themselves.
use vstd::prelude::*;
use crate::fts::{
    all_quoted, escaped_query, explicit_syntax, law_blank_queries_escape_to_nothing, limit_value,
    quoted,
};
use crate::laws::previews::blank;
use crate::laws::texts::{law_contains, law_words};
use crate::messages::{searching, SearchResultModel};
use crate::task::{NextModel, StepModel};
use crate::text::{
    contains, fields, lemma_fields_at_least_one, lemma_join_concat, lemma_occurs_between, occurs_at,
    words, Separator,
};

verus! {

/// Whether a query holds a quote or one of the operators.
pub open spec fn holds_syntax(query: Seq<char>) -> bool {
    ||| query.contains('"')
    ||| contains(query, " AND "@)
    ||| contains(query, " OR "@)
    ||| contains(query, " NOT "@)
}

/// The two ways to say that a query is written in the query language are the same.
proof fn lemma_syntax(query: Seq<char>)
    ensures
        holds_syntax(query) == explicit_syntax(query),
{
    reveal_strlit("\"");
    if query.contains('"') {
        let i = choose|i: int| 0 <= i < query.len() && query[i] == '"';
        assert(query.subrange(i, i + 1) =~= "\""@);
        assert(occurs_at(query, "\""@, i));
    }
    if contains(query, "\""@) {
        let i = choose|i: int| occurs_at(query, "\""@, i);
        assert(query[i] == query.subrange(i, i + 1)[0]);
    }
}

/// A query with a quote or an operator is left as it is.
pub proof fn law_explicit_query(query: Seq<char>)
    requires
        holds_syntax(query),
    ensures
        escaped_query(query) == query,
{
    lemma_syntax(query);
}

/// One word without a quote is put into quotes.
pub proof fn law_one_word(word: Seq<char>)
    requires
        word.len() > 0,
        !word.contains('"'),
        forall|i: int| 0 <= i < word.len() ==> !Separator::WhiteSpace.covers(#[trigger] word[i]),
    ensures
        escaped_query(word) == seq!['"'] + word + seq!['"'],
{
    reveal_strlit("\"");
    reveal_strlit(" AND ");
    reveal_strlit(" OR ");
    reveal_strlit(" NOT ");
    lemma_syntax(word);
    if contains(word, " AND "@) {
        let i = choose|i: int| occurs_at(word, " AND "@, i);
        assert(word[i] == word.subrange(i, i + 5)[0]);
    }
    if contains(word, " OR "@) {
        let i = choose|i: int| occurs_at(word, " OR "@, i);
        assert(word[i] == word.subrange(i, i + 4)[0]);
    }
    if contains(word, " NOT "@) {
        let i = choose|i: int| occurs_at(word, " NOT "@, i);
        assert(word[i] == word.subrange(i, i + 5)[0]);
    }
    law_words(word, ' ', seq![]);
    assert(all_quoted(words(word)) =~= seq![quoted(word)]);
    assert(escaped_query(word) =~= seq!['"'] + word + seq!['"']);
}

/// A part of a query without a quote or an operator has none either.
proof fn lemma_part_without_syntax(left: Seq<char>, part: Seq<char>, right: Seq<char>)
    requires
        !holds_syntax(left + part + right),
    ensures
        !holds_syntax(part),
{
    let query = left + part + right;
    if part.contains('"') {
        let i = choose|i: int| 0 <= i < part.len() && part[i] == '"';
        assert(query[left.len() + i] == '"');
    }
    lemma_part_contains(left, part, right, " AND "@);
    lemma_part_contains(left, part, right, " OR "@);
    lemma_part_contains(left, part, right, " NOT "@);
}

/// What a part of a text contains, the text contains.
proof fn lemma_part_contains(
    left: Seq<char>,
    part: Seq<char>,
    right: Seq<char>,
    pattern: Seq<char>,
)
    ensures
        contains(part, pattern) ==> contains(left + part + right, pattern),
{
    if contains(part, pattern) {
        law_contains(part, pattern);
        let (a, b) = choose|a: Seq<char>, b: Seq<char>| part == #[trigger] (a + pattern + b);
        assert(left + part + right =~= (left + a) + pattern + (b + right));
        lemma_occurs_between(left + a, pattern, b + right);
    }
}

/// Two parts of a query, both more than white space, are escaped each for itself, with a
/// space in between; a part of white space adds nothing. So every word of a query without
/// the query language is searched for, in quotes and in its order.
pub proof fn law_words_are_quoted(left: Seq<char>, c: char, right: Seq<char>)
    requires
        Separator::WhiteSpace.covers(c),
        !holds_syntax(left + seq![c] + right),
    ensures
        !blank(left) && !blank(right) ==> escaped_query(left + seq![c] + right) == escaped_query(
            left,
        ) + " "@ + escaped_query(right),
        blank(left) ==> escaped_query(left + seq![c] + right) == escaped_query(right),
        blank(right) ==> escaped_query(left + seq![c] + right) == escaped_query(left),
{
    let none = Seq::<char>::empty();
    let query = left + seq![c] + right;
    assert(none + left + (seq![c] + right) =~= query);
    lemma_part_without_syntax(none, left, seq![c] + right);
    assert((left + seq![c]) + right + none =~= query);
    lemma_part_without_syntax(left + seq![c], right, none);
    lemma_syntax(query);
    lemma_syntax(left);
    lemma_syntax(right);
    law_words(left, c, right);
    lemma_blank_has_no_words(left);
    lemma_blank_has_no_words(right);
    let a = all_quoted(words(left));
    let b = all_quoted(words(right));
    assert(all_quoted(words(query)) =~= a + b);
    if a.len() > 0 && b.len() > 0 {
        lemma_join_concat(a, b, " "@);
    } else if a.len() == 0 {
        assert(a + b =~= b);
    } else {
        assert(a + b =~= a);
    }
    if b.len() == 0 {
        assert(a + b =~= a);
    }
}

/// A text has no words exactly where it is made of white space.
proof fn lemma_blank_has_no_words(text: Seq<char>)
    ensures
        blank(text) <==> words(text).len() == 0,
    decreases text.len(),
{
    if text.len() == 0 {
        law_words(text, ' ', text);
        assert(text =~= Seq::<char>::empty());
    } else {
        let head = text.drop_last();
        lemma_blank_has_no_words(head);
        if Separator::WhiteSpace.covers(text.last()) {
            let none = Seq::<char>::empty();
            law_words(head, text.last(), none);
            assert(head + seq![text.last()] + none =~= text);
            if blank(head) {
                assert forall|i: int| 0 <= i < text.len() implies Separator::WhiteSpace.covers(
                    #[trigger] text[i],
                ) by {
                    if i < head.len() {
                        assert(Separator::WhiteSpace.covers(head[i]));
                    }
                }
            } else {
                let i = choose|i: int|
                    0 <= i < head.len() && !Separator::WhiteSpace.covers(#[trigger] head[i]);
                assert(!Separator::WhiteSpace.covers(text[i]));
            }
        } else {
            assert(!Separator::WhiteSpace.covers(text[text.len() - 1]));
            lemma_ends_in_a_word(text);
        }
    }
}

/// A text that ends in no white space has a word.
proof fn lemma_ends_in_a_word(text: Seq<char>)
    requires
        text.len() > 0,
        !Separator::WhiteSpace.covers(text.last()),
    ensures
        words(text).len() > 0,
{
    let parts = fields(text, Separator::WhiteSpace);
    lemma_fields_at_least_one(text.drop_last(), Separator::WhiteSpace);
    assert(parts.last().len() > 0);
}

/// A search for white space alone is over at once and finds nothing; any other asks.
pub proof fn law_blank_search<E>(
    query: Seq<char>,
    limit: usize,
    project_name: Option<Seq<char>>,
    role: Option<Seq<char>>,
    since: Option<Seq<char>>,
    until: Option<Seq<char>>,
)
    ensures
        blank(query) ==> searching::<E>(query, limit, project_name, role, since, until)
            == (StepModel::<(), Seq<SearchResultModel>, E> {
            lines: seq![],
            next: NextModel::Done(seq![]),
        }),
        !blank(query) ==> searching::<E>(
            query,
            limit,
            project_name,
            role,
            since,
            until,
        ).next is Ask,
{
    law_blank_queries_escape_to_nothing(query);
}

/// A limit is bound as it is where it can be, and as a negative number otherwise.
pub proof fn law_limit(limit: usize)
    ensures
        limit <= i64::MAX ==> limit_value(limit) == limit,
        limit > i64::MAX ==> limit_value(limit) < 0,
{
}

} // verus!
