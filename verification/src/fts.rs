//! Full-text queries: how a user's words become a query, and the row limit.
use vstd::prelude::*;
use crate::text::{
    chars_deep_view, contains, fields, has, join, lemma_fields_at_least_one,
    lemma_fields_hold_no_separator, nonempty, occurs_at, push_range, split_words, words, Separator,
};

verus! {

/// Whether a query is written in the query language: it holds a double quote or
/// one of the operators.
pub open spec fn explicit_syntax(query: Seq<char>) -> bool {
    ||| contains(query, "\""@)
    ||| contains(query, " AND "@)
    ||| contains(query, " OR "@)
    ||| contains(query, " NOT "@)
}

/// `word` in double quotes.
pub open spec fn quoted(word: Seq<char>) -> Seq<char> {
    "\""@ + word + "\""@
}

/// The members of `parts` in double quotes.
pub open spec fn all_quoted(parts: Seq<Seq<char>>) -> Seq<Seq<char>> {
    parts.map_values(|word: Seq<char>| quoted(word))
}

/// The query that searches for what the user wrote: the text itself where it is
/// written in the query language, else each of its words in quotes.
pub open spec fn escaped_query(query: Seq<char>) -> Seq<char> {
    if explicit_syntax(query) {
        query
    } else {
        join(all_quoted(words(query)), " "@)
    }
}

/// Escapes a query string for safe use in a full-text match.
/// Wraps each word in double quotes to prevent its interpretation as an operator.
pub fn escape_fts_query(query: &str) -> (escaped: String)
    ensures
        escaped@ == escaped_query(query@),
{
    broadcast use chars_deep_view;

    if has(query, "\"") || has(query, " AND ") || has(query, " OR ") || has(query, " NOT ") {
        return query.to_string();
    }
    // No word holds a quote here, so none has to be doubled.
    let parts = split_words(query);
    let ghost all = all_quoted(words(query@));
    let mut escaped = String::new();
    let mut i: usize = 0;
    assert(all.take(0) =~= Seq::<Seq<char>>::empty());
    while i < parts.len()
        invariant
            i <= parts@.len(),
            parts.deep_view() == words(query@),
            all == all_quoted(words(query@)),
            escaped@ == join(all.take(i as int), " "@),
        decreases parts@.len() - i,
    {
        broadcast use chars_deep_view;

        if i > 0 {
            escaped.append(" ");
        }
        escaped.append("\"");
        push_range(&mut escaped, &parts[i], 0, parts[i].len());
        escaped.append("\"");
        i += 1;
        proof {
            let head = all.take(i as int);
            assert(head.drop_last() =~= all.take(i - 1));
            assert(parts@[i - 1].deep_view() == words(query@)[i - 1]);
            assert(parts@[i - 1]@.subrange(0, parts@[i - 1]@.len() as int) =~= parts@[i - 1]@);
            assert(head.last() == quoted(parts@[i - 1]@));
            if i == 1 {
                assert(escaped@ =~= head[0]);
            } else {
                assert(escaped@ =~= join(head.drop_last(), " "@) + " "@ + head.last());
            }
        }
    }
    assert(all.take(all.len() as int) =~= all);
    escaped
}

/// The value bound to `LIMIT` for a limit of `limit` rows; a negative one means
/// no limit.
pub open spec fn limit_value(limit: usize) -> i64 {
    if limit <= i64::MAX {
        limit as i64
    } else {
        (-1) as i64
    }
}

/// The value bound to `LIMIT` for a limit of `limit` rows: the limit itself, or
/// -1 (no limit) where it is too large to be bound.
pub fn limit_param(limit: usize) -> (value: i64)
    ensures
        value == limit_value(limit),
{
    if limit as u128 <= i64::MAX as u128 {
        limit as i64
    } else {
        -1
    }
}

/// Pieces that are all empty leave nothing, and only these.
proof fn lemma_nonempty_of_empty(parts: Seq<Seq<char>>)
    ensures
        nonempty(parts).len() == 0 <==> forall|i: int|
            0 <= i < parts.len() ==> #[trigger] parts[i].len() == 0,
    decreases parts.len(),
{
    if parts.len() > 0 {
        let head = parts.drop_last();
        lemma_nonempty_of_empty(head);
        if forall|i: int| 0 <= i < parts.len() ==> #[trigger] parts[i].len() == 0 {
            assert(parts[parts.len() - 1].len() == 0);
            assert forall|i: int| 0 <= i < head.len() implies #[trigger] head[i].len() == 0 by {
                assert(parts[i].len() == 0);
            }
        }
        if nonempty(parts).len() == 0 {
            assert(parts.last().len() == 0);
            assert forall|i: int| 0 <= i < parts.len() implies #[trigger] parts[i].len() == 0 by {
                if i < head.len() {
                    assert(head[i].len() == 0);
                }
            }
        }
    }
}

/// The kept pieces are among the given ones and are not empty.
proof fn lemma_nonempty_members(parts: Seq<Seq<char>>)
    ensures
        forall|i: int|
            0 <= i < nonempty(parts).len() ==> #[trigger] nonempty(parts)[i].len() > 0
                && parts.contains(nonempty(parts)[i]),
    decreases parts.len(),
{
    if parts.len() > 0 {
        let head = parts.drop_last();
        lemma_nonempty_members(head);
        assert forall|i: int| 0 <= i < nonempty(parts).len() implies #[trigger] nonempty(
            parts,
        )[i].len() > 0 && parts.contains(nonempty(parts)[i]) by {
            if i < nonempty(head).len() {
                assert(nonempty(parts)[i] == nonempty(head)[i]);
                let k = choose|k: int| 0 <= k < head.len() && head[k] == nonempty(head)[i];
                assert(parts[k] == nonempty(parts)[i]);
            } else {
                assert(parts[parts.len() - 1] == nonempty(parts)[i]);
            }
        }
    }
}

/// Every field of a text is empty exactly where the text holds only separators.
proof fn lemma_fields_of_blank(text: Seq<char>, separator: Separator)
    ensures
        (forall|i: int|
            0 <= i < fields(text, separator).len() ==> #[trigger] fields(
                text,
                separator,
            )[i].len() == 0) <==> forall|k: int|
            0 <= k < text.len() ==> separator.covers(#[trigger] text[k]),
    decreases text.len(),
{
    if text.len() > 0 {
        let head = text.drop_last();
        let old_parts = fields(head, separator);
        let parts = fields(text, separator);
        lemma_fields_of_blank(head, separator);
        lemma_fields_at_least_one(head, separator);
        if forall|k: int| 0 <= k < text.len() ==> separator.covers(#[trigger] text[k]) {
            assert forall|k: int| 0 <= k < head.len() implies separator.covers(
                #[trigger] head[k],
            ) by {
                assert(separator.covers(text[k]));
            }
            assert(separator.covers(text[text.len() - 1]));
            assert forall|i: int| 0 <= i < parts.len() implies #[trigger] parts[i].len() == 0 by {
                if i < old_parts.len() {
                    assert(old_parts[i].len() == 0);
                }
            }
        } else if separator.covers(text.last()) {
            let k = choose|k: int| 0 <= k < text.len() && !separator.covers(#[trigger] text[k]);
            assert(!separator.covers(head[k]));
            let i = choose|i: int|
                0 <= i < old_parts.len() && #[trigger] old_parts[i].len() != 0;
            assert(parts[i].len() != 0);
        } else {
            assert(parts[parts.len() - 1].len() != 0);
        }
    }
}

/// No word is empty, and none holds white space.
pub proof fn law_words_are_words(query: Seq<char>)
    ensures
        forall|i: int| 0 <= i < words(query).len() ==> #[trigger] words(query)[i].len() > 0,
        forall|i: int, j: int|
            #![trigger words(query)[i][j]]
            0 <= i < words(query).len() && 0 <= j < words(query)[i].len()
                ==> !Separator::WhiteSpace.covers(words(query)[i][j]) && query.contains(
                words(query)[i][j],
            ),
{
    let parts = fields(query, Separator::WhiteSpace);
    lemma_nonempty_members(parts);
    lemma_fields_hold_no_separator(query, Separator::WhiteSpace);
    assert forall|i: int, j: int|
        #![trigger words(query)[i][j]]
        0 <= i < words(query).len() && 0 <= j < words(query)[i].len()
            implies !Separator::WhiteSpace.covers(words(query)[i][j]) && query.contains(
        words(query)[i][j],
    ) by {
        let k = choose|k: int| 0 <= k < parts.len() && parts[k] == words(query)[i];
        assert(parts[k][j] == words(query)[i][j]);
    }
}

/// A query that is not written in the query language is searched for by words
/// that hold no quote, so no character of a word can end its quotes.
pub proof fn law_quoted_words_hold_no_quote(query: Seq<char>)
    requires
        !explicit_syntax(query),
    ensures
        forall|i: int, j: int|
            #![trigger words(query)[i][j]]
            0 <= i < words(query).len() && 0 <= j < words(query)[i].len() ==> words(query)[i][j]
                != '"',
{
    reveal_strlit("\"");
    law_words_are_words(query);
    assert forall|i: int, j: int|
        #![trigger words(query)[i][j]]
        0 <= i < words(query).len() && 0 <= j < words(query)[i].len() implies words(query)[i][j]
        != '"' by {
        let c = words(query)[i][j];
        if c == '"' {
            let k = choose|k: int| 0 <= k < query.len() && query[k] == c;
            assert(query.subrange(k, k + 1) =~= "\""@);
            assert(occurs_at(query, "\""@, k));
        }
    }
}

/// The escaped query is empty exactly where the query holds only white space.
pub proof fn law_blank_queries_escape_to_nothing(query: Seq<char>)
    ensures
        escaped_query(query).len() == 0 <==> forall|k: int|
            0 <= k < query.len() ==> Separator::WhiteSpace.covers(#[trigger] query[k]),
{
    reveal_strlit("\"");
    reveal_strlit(" AND ");
    reveal_strlit(" OR ");
    reveal_strlit(" NOT ");
    if explicit_syntax(query) {
        if contains(query, "\""@) {
            let i = choose|i: int| occurs_at(query, "\""@, i);
            assert(query[i] == query.subrange(i, i + 1)[0]);
            assert(!Separator::WhiteSpace.covers(query[i]));
        } else if contains(query, " AND "@) {
            let i = choose|i: int| occurs_at(query, " AND "@, i);
            assert(query[i + 1] == query.subrange(i, i + 5)[1]);
            assert(!Separator::WhiteSpace.covers(query[i + 1]));
        } else if contains(query, " OR "@) {
            let i = choose|i: int| occurs_at(query, " OR "@, i);
            assert(query[i + 1] == query.subrange(i, i + 4)[1]);
            assert(!Separator::WhiteSpace.covers(query[i + 1]));
        } else {
            let i = choose|i: int| occurs_at(query, " NOT "@, i);
            assert(query[i + 1] == query.subrange(i, i + 5)[1]);
            assert(!Separator::WhiteSpace.covers(query[i + 1]));
        }
    } else {
        lemma_fields_of_blank(query, Separator::WhiteSpace);
        lemma_nonempty_of_empty(fields(query, Separator::WhiteSpace));
        if words(query).len() > 0 {
            lemma_quoted_ends_in_quote(query);
        }
    }
}

/// The quoted words of a query that has any end in a quote.
proof fn lemma_quoted_ends_in_quote(query: Seq<char>)
    requires
        words(query).len() > 0,
    ensures
        join(all_quoted(words(query)), " "@).len() > 0,
        join(all_quoted(words(query)), " "@).last() == '"',
{
    reveal_strlit("\"");
    let all = all_quoted(words(query));
    assert(all.last() == quoted(words(query).last()));
    assert(all.last().last() == '"');
    if all.len() == 1 {
        assert(join(all, " "@) == all[0]);
    } else {
        assert(join(all, " "@) == join(all.drop_last(), " "@) + " "@ + all.last());
    }
}

/// Escaping what is escaped already changes nothing.
pub proof fn law_escaping_is_stable(query: Seq<char>)
    ensures
        escaped_query(escaped_query(query)) == escaped_query(query),
{
    reveal_strlit("\"");
    reveal_strlit(" AND ");
    reveal_strlit(" OR ");
    reveal_strlit(" NOT ");
    if !explicit_syntax(query) {
        let escaped = escaped_query(query);
        if words(query).len() > 0 {
            lemma_quoted_ends_in_quote(query);
            let last = escaped.len() - 1;
            assert(escaped.subrange(last, last + 1) =~= "\""@);
            assert(occurs_at(escaped, "\""@, last));
        } else {
            assert(escaped.len() == 0);
            law_blank_queries_escape_to_nothing(escaped);
            assert(escaped_query(escaped) =~= escaped);
        }
    }
}

} // verus!
