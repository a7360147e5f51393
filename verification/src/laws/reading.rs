//! Listing, searching and resolving: what they read, and what a filter leaves of it.
use vstd::prelude::*;
use crate::error::ErrorModel;
use crate::filter::{numbered, when_given, ConditionModel};
use crate::fts::{escaped_query, limit_value};
use crate::laws::{
    lemma_ends_ask, lemma_filter_all_or_none, lemma_filter_members, lemma_message_rows,
};
use crate::messages::{
    search_conditions, search_request, searching, FetchMessages, SearchResultModel,
};
use crate::project::project_filter;
use crate::sessions::{
    first_meaningful, list_conditions, list_from, listing, looking_up, offset_value, preview_of,
    resolving, starting_with, summaries_in, texts_in, with_preview, ListSessions,
    NthRecentSessionId, ResolveSessionId, SummaryModel,
};
use crate::tables::{
    all_bound, bound_integer, bound_text, candidates, different_stamps, directories_with, ends,
    hits, joined, limited, list_clause, list_sql, message_meets, message_passes, messages_of,
    search_clause, search_sql, selected, session_meets, session_passes, session_row, stamp,
    start_with_texts, statement_of, text_rows, where_text, Clause, Comparison, Engine, StoredMessage, StoredSession,
    Tables,
};
use crate::task::{text_at, Column, ReplyModel, Task, ValueModel};
use crate::text::{decimal, join, starts_like};

verus! {

/// Rows of one text each are read as these texts.
proof fn lemma_text_rows<E>(reply: ReplyModel<E>, texts: Seq<Seq<char>>)
    requires
        reply.failure is None,
        reply.rows == text_rows(texts),
    ensures
        texts_in(reply) == Ok::<Seq<Seq<char>>, ErrorModel<E>>(texts),
{
    assert(start_with_texts(reply.rows, texts));
    lemma_first_texts(reply, texts);
}

/// Rows that start with texts are read as these texts.
proof fn lemma_first_texts<E>(reply: ReplyModel<E>, texts: Seq<Seq<char>>)
    requires
        reply.failure is None,
        start_with_texts(reply.rows, texts),
    ensures
        texts_in(reply) == Ok::<Seq<Seq<char>>, ErrorModel<E>>(texts),
{
    assert forall|i: int| 0 <= i < reply.rows.len() implies text_at(#[trigger] reply.rows[i], 0)
        == Some(texts[i]) by {}
    assert(texts_in(reply)->Ok_0 =~= texts);
}

/// Filtering before and after a mapping gives the same, where the two filters agree.
proof fn lemma_filter_map<A, B>(
    all: Seq<A>,
    map: spec_fn(A) -> B,
    before: spec_fn(A) -> bool,
    after: spec_fn(B) -> bool,
)
    requires
        forall|i: int| 0 <= i < all.len() ==> before(#[trigger] all[i]) == after(map(all[i])),
    ensures
        all.filter(before).map_values(map) == all.map_values(map).filter(after),
    decreases all.len(),
{
    reveal(Seq::filter);
    if all.len() == 0 {
        assert(all.filter(before).map_values(map) =~= all.map_values(map).filter(after));
    } else {
        let head = all.drop_last();
        assert forall|i: int| 0 <= i < head.len() implies before(#[trigger] head[i]) == after(
            map(head[i]),
        ) by {
            assert(before(all[i]) == after(map(all[i])));
        }
        lemma_filter_map(head, map, before, after);
        assert(all.map_values(map).drop_last() =~= head.map_values(map));
        assert(all[all.len() - 1] == all.last());
        assert(before(all.last()) == after(map(all.last())));
        assert(all.filter(before).map_values(map) =~= all.map_values(map).filter(after));
    }
}

/// Filtering twice is filtering by both conditions.
proof fn lemma_filter_twice<A>(
    all: Seq<A>,
    first: spec_fn(A) -> bool,
    second: spec_fn(A) -> bool,
    both: spec_fn(A) -> bool,
)
    requires
        forall|x: A| #[trigger] both(x) == (first(x) && second(x)),
    ensures
        all.filter(first).filter(second) == all.filter(both),
    decreases all.len(),
{
    reveal(Seq::filter);
    if all.len() > 0 {
        let head = all.drop_last();
        lemma_filter_twice(head, first, second, both);
        assert(both(all.last()) == (first(all.last()) && second(all.last())));
        if first(all.last()) {
            head.filter(first).lemma_filter_push(all.last(), second);
        }
    }
}

/// The multiset of a filtered sequence is the filtered multiset.
proof fn lemma_filter_multiset<A>(all: Seq<A>, keep: spec_fn(A) -> bool)
    ensures
        all.filter(keep).to_multiset() == all.to_multiset().filter(keep),
    decreases all.len(),
{
    reveal(Seq::filter);
    broadcast use vstd::multiset::group_multiset_axioms;
    broadcast use vstd::seq_lib::group_to_multiset_ensures;

    if all.len() == 0 {
        assert(all.to_multiset() =~= vstd::multiset::Multiset::empty());
        assert(all.filter(keep) =~= all);
        assert(all.filter(keep).to_multiset() =~= all.to_multiset().filter(keep));
    } else {
        let head = all.drop_last();
        lemma_filter_multiset(head, keep);
        assert(all =~= head.push(all.last()));
        assert(all.to_multiset() =~= head.to_multiset().insert(all.last()));
        if keep(all.last()) {
            assert(all.filter(keep).to_multiset() =~= head.filter(keep).to_multiset().insert(
                all.last(),
            ));
        }
        assert(all.filter(keep).to_multiset() =~= all.to_multiset().filter(keep));
    }
}

/// Conditions follow on `WHERE`, with `AND` between them.
pub proof fn lemma_where(texts: Seq<Seq<char>>)
    requires
        texts.len() > 0,
    ensures
        " WHERE "@ + join(texts, " AND "@) == where_text(texts),
    decreases texts.len(),
{
    if texts.len() > 1 {
        lemma_where(texts.drop_last());
        assert(" WHERE "@ + join(texts, " AND "@) =~= where_text(texts));
    }
}

/// The number of values that are given.
pub open spec fn one(value: Option<Seq<char>>) -> nat {
    if value is Some {
        1
    } else {
        0
    }
}

/// A condition where its value is given.
pub open spec fn clause_if(
    value: Option<Seq<char>>,
    comparison: Comparison,
    place: nat,
) -> Seq<Clause> {
    if value is Some {
        seq![Clause { comparison, place }]
    } else {
        seq![]
    }
}

/// Whether the conditions, with their numbers, have the texts of the clauses.
spec fn paired(
    conditions: Seq<ConditionModel>,
    clauses: Seq<Clause>,
    text: spec_fn(Clause) -> Seq<char>,
) -> bool {
    &&& conditions.len() == clauses.len()
    &&& numbered(conditions) == clauses.map_values(text)
    &&& forall|i: int| 0 <= i < clauses.len() ==> (#[trigger] clauses[i]).place == i + 1
}

/// One more condition goes with one more clause.
proof fn lemma_paired(
    conditions: Seq<ConditionModel>,
    clauses: Seq<Clause>,
    text: spec_fn(Clause) -> Seq<char>,
    start: Seq<char>,
    value: Option<Seq<char>>,
    comparison: Comparison,
)
    requires
        paired(conditions, clauses, text),
        text(Clause { comparison, place: conditions.len() + 1 }) == start + decimal(
            conditions.len() + 1,
        ),
    ensures
        paired(
            conditions + when_given(start, value),
            clauses + clause_if(value, comparison, conditions.len() + 1),
            text,
        ),
{
    let more = conditions + when_given(start, value);
    let further = clauses + clause_if(value, comparison, conditions.len() + 1);
    assert forall|i: int| 0 <= i < more.len() implies numbered(more)[i] == further.map_values(
        text,
    )[i] by {
        if i < conditions.len() {
            assert(numbered(more)[i] == numbered(conditions)[i]);
            assert(further.map_values(text)[i] == clauses.map_values(text)[i]);
        }
    }
    assert(numbered(more) =~= further.map_values(text));
}

/// The conditions that the text of a search holds.
pub open spec fn search_clauses(
    project_name: Option<Seq<char>>,
    role: Option<Seq<char>>,
    since: Option<Seq<char>>,
    until: Option<Seq<char>>,
) -> Seq<Clause> {
    let p = 2 + one(project_name);
    let r = p + one(role);
    let s = r + one(since);
    seq![Clause { comparison: Comparison::Matches, place: 1 }] + clause_if(
        project_name,
        Comparison::Project,
        2,
    ) + clause_if(role, Comparison::Role, p) + clause_if(since, Comparison::Since, r) + clause_if(
        until,
        Comparison::Until,
        s,
    )
}

/// The pattern that is bound for a project name is the one of the directories with it.
pub proof fn lemma_directories_with(name: Seq<char>)
    ensures
        project_filter(name) == directories_with(name),
{
    assert(project_filter(name) =~= directories_with(name));
}

/// The text of a search holds its conditions, and each is bound to its value.
#[verifier::rlimit(30)]
pub proof fn lemma_search_request<E>(
    query: Seq<char>,
    limit: usize,
    project_name: Option<Seq<char>>,
    role: Option<Seq<char>>,
    since: Option<Seq<char>>,
    until: Option<Seq<char>>,
)
    requires
        escaped_query(query).len() > 0,
    ensures
        ({
            let start = searching::<E>(query, limit, project_name, role, since, until);
            let request = start.next->Ask_1;
            let clauses = search_clauses(project_name, role, since, until);
            let place = clauses.len() + 1;
            let params = statement_of(request).params;
            let p = 2 + one(project_name);
            let r = p + one(role);
            let s = r + one(since);
            &&& start.next is Ask
            &&& request is FetchAll
            &&& statement_of(request).sql == search_sql(clauses, place)
            &&& request->FetchAll_columns == seq![
                Column::Text,
                Column::Text,
                Column::Text,
                Column::Text,
                Column::OptionalText,
            ]
            &&& params.len() == place
            &&& all_bound(request, clauses, place)
            &&& bound_text(request, 1) == escaped_query(query)
            &&& project_name is Some ==> bound_text(request, 2) == directories_with(
                project_name->0,
            )
            &&& role is Some ==> bound_text(request, p as int) == role->0
            &&& since is Some ==> bound_text(request, r as int) == since->0
            &&& until is Some ==> bound_text(request, s as int) == until->0
            &&& bound_integer(request, place as int) == if limit <= i64::MAX {
                limit as int
            } else {
                -1
            }
        }),
{
    let conditions = search_conditions(query, project_name, role, since, until);
    let clauses = search_clauses(project_name, role, since, until);
    if project_name is Some {
        lemma_directories_with(project_name->0);
    }
    let text = |c: Clause| search_clause(c);
    let pattern = match project_name {
        Some(name) => Some(project_filter(name)),
        None => None,
    };
    let c1 = when_given("messages_fts MATCH ?"@, Some(escaped_query(query)));
    let c2 = c1 + when_given("s.project LIKE ?"@, pattern);
    let c3 = c2 + when_given("m.role = ?"@, role);
    let c4 = c3 + when_given("m.timestamp >= ?"@, since);
    let k1 = seq![Clause { comparison: Comparison::Matches, place: 1 }];
    let k2 = k1 + clause_if(project_name, Comparison::Project, 2);
    let k3 = k2 + clause_if(role, Comparison::Role, 2 + one(project_name));
    let k4 = k3 + clause_if(since, Comparison::Since, 2 + one(project_name) + one(role));
    assert(numbered(c1) =~= k1.map_values(text));
    assert(paired(c1, k1, text));
    assert(clause_if(pattern, Comparison::Project, 2) == clause_if(
        project_name,
        Comparison::Project,
        2,
    ));
    lemma_paired(c1, k1, text, "s.project LIKE ?"@, pattern, Comparison::Project);
    lemma_paired(c2, k2, text, "m.role = ?"@, role, Comparison::Role);
    lemma_paired(c3, k3, text, "m.timestamp >= ?"@, since, Comparison::Since);
    lemma_paired(c4, k4, text, "m.timestamp <= ?"@, until, Comparison::Until);
    lemma_where(clauses.map_values(text));
    lemma_search_values(query, limit, project_name, role, since, until);
}

/// The values that a search binds stand in the order of its conditions, the limit last.
pub proof fn lemma_search_values(
    query: Seq<char>,
    limit: usize,
    project_name: Option<Seq<char>>,
    role: Option<Seq<char>>,
    since: Option<Seq<char>>,
    until: Option<Seq<char>>,
)
    ensures
        ({
            let params = search_request(
                query,
                limit,
                project_name,
                role,
                since,
                until,
            )->FetchAll_statement.params;
            let p = 2 + one(project_name);
            let r = p + one(role);
            let s = r + one(since);
            let u = s + one(until);
            &&& params.len() == u
            &&& params[0] == ValueModel::Text(escaped_query(query))
            &&& project_name is Some ==> params[1] == ValueModel::Text(
                project_filter(project_name->0),
            )
            &&& role is Some ==> params[p - 1] == ValueModel::Text(role->0)
            &&& since is Some ==> params[r - 1] == ValueModel::Text(since->0)
            &&& until is Some ==> params[s - 1] == ValueModel::Text(until->0)
            &&& params[u - 1] is Integer
            &&& params[u - 1]->Integer_0 == if limit <= i64::MAX {
                limit as int
            } else {
                -1
            }
        }),
{
    let conditions = search_conditions(query, project_name, role, since, until);
    let p = 2 + one(project_name);
    let r = p + one(role);
    let s = r + one(since);
    assert(conditions[0].value == escaped_query(query));
    if role is Some {
        assert(conditions[p - 1].value == role->0);
    }
    if since is Some {
        assert(conditions[r - 1].value == since->0);
    }
    if until is Some {
        assert(conditions[s - 1].value == until->0);
    }
}

/// A message meets the conditions in the text of a search exactly where it matches the query
/// and meets the filters.
proof fn lemma_search_conditions<E>(
    engine: Engine,
    query: Seq<char>,
    limit: usize,
    project_name: Option<Seq<char>>,
    role: Option<Seq<char>>,
    since: Option<Seq<char>>,
    until: Option<Seq<char>>,
    m: SearchResultModel,
)
    requires
        escaped_query(query).len() > 0,
    ensures
        ({
            let request = searching::<E>(
                query,
                limit,
                project_name,
                role,
                since,
                until,
            ).next->Ask_1;
            let clauses = search_clauses(project_name, role, since, until);
            (forall|i: int|
                0 <= i < clauses.len() ==> message_meets(
                    engine,
                    request,
                    m,
                    #[trigger] clauses[i],
                )) <==> (engine.matches)(escaped_query(query), m.content) && message_passes(
                engine,
                m,
                project_name,
                role,
                since,
                until,
            )
        }),
{
    lemma_search_request::<E>(query, limit, project_name, role, since, until);
    let request = searching::<E>(query, limit, project_name, role, since, until).next->Ask_1;
    let clauses = search_clauses(project_name, role, since, until);
    let p = 2 + one(project_name);
    let r = p + one(role);
    let s = r + one(since);
    assert(clauses[0] == Clause { comparison: Comparison::Matches, place: 1 });
    if project_name is Some {
        assert(clauses[1] == Clause { comparison: Comparison::Project, place: 2 });
    }
    if role is Some {
        assert(clauses[p - 1] == Clause { comparison: Comparison::Role, place: p });
    }
    if since is Some {
        assert(clauses[r - 1] == Clause { comparison: Comparison::Since, place: r });
    }
    if until is Some {
        assert(clauses[s - 1] == Clause { comparison: Comparison::Until, place: s });
    }
    if (engine.matches)(escaped_query(query), m.content) && message_passes(
        engine,
        m,
        project_name,
        role,
        since,
        until,
    ) {
        assert forall|i: int| 0 <= i < clauses.len() implies message_meets(
            engine,
            request,
            m,
            #[trigger] clauses[i],
        ) by {
            assert(i == 0 || (project_name is Some && i == 1) || (role is Some && i == p - 1) || (
            since is Some && i == r - 1) || (until is Some && i == s - 1));
        }
    }
}

/// The conditions that the text of a listing holds.
pub open spec fn list_clauses(
    project_name: Option<Seq<char>>,
    since: Option<Seq<char>>,
    until: Option<Seq<char>>,
) -> Seq<Clause> {
    let p = 1 + one(project_name);
    let s = p + one(since);
    clause_if(project_name, Comparison::Project, 1) + clause_if(since, Comparison::Since, p)
        + clause_if(until, Comparison::Until, s)
}

/// The text of a listing holds its conditions, and each is bound to its value.
pub proof fn lemma_list_request<E>(
    limit: usize,
    project_name: Option<Seq<char>>,
    since: Option<Seq<char>>,
    until: Option<Seq<char>>,
)
    ensures
        ({
            let start = listing::<E>(limit, project_name, since, until);
            let request = start.next->Ask_1;
            let clauses = list_clauses(project_name, since, until);
            let place = clauses.len() + 1;
            let params = statement_of(request).params;
            let p = 1 + one(project_name);
            let s = p + one(since);
            &&& start.next is Ask
            &&& request is FetchAll
            &&& statement_of(request).sql == list_sql(clauses, place)
            &&& request->FetchAll_columns == seq![
                Column::Text,
                Column::Text,
                Column::OptionalText,
                Column::Integer,
            ]
            &&& params.len() == place
            &&& all_bound(request, clauses, place)
            &&& project_name is Some ==> bound_text(request, 1) == directories_with(
                project_name->0,
            )
            &&& since is Some ==> bound_text(request, p as int) == since->0
            &&& until is Some ==> bound_text(request, s as int) == until->0
            &&& bound_integer(request, place as int) == if limit <= i64::MAX {
                limit as int
            } else {
                -1
            }
        }),
{
    let conditions = list_conditions(project_name, since, until);
    let clauses = list_clauses(project_name, since, until);
    if project_name is Some {
        lemma_directories_with(project_name->0);
    }
    assert(conditions.len() == clauses.len());
    let texts = clauses.map_values(|c: Clause| list_clause(c));
    assert forall|i: int| 0 <= i < conditions.len() implies #[trigger] numbered(conditions)[i]
        == texts[i] by {
        assert(clauses[i].place == i + 1);
    }
    assert(numbered(conditions) =~= texts);
    if texts.len() > 0 {
        lemma_where(texts);
    }
    let statement = statement_of(listing::<E>(limit, project_name, since, until).next->Ask_1);
    assert(statement.sql =~= list_sql(clauses, clauses.len() + 1));
}

/// A session meets the conditions in the text of a listing exactly where it meets the filters.
proof fn lemma_list_conditions<E>(
    engine: Engine,
    limit: usize,
    project_name: Option<Seq<char>>,
    since: Option<Seq<char>>,
    until: Option<Seq<char>>,
    session: StoredSession,
)
    ensures
        ({
            let request = listing::<E>(limit, project_name, since, until).next->Ask_1;
            let clauses = list_clauses(project_name, since, until);
            (forall|i: int|
                0 <= i < clauses.len() ==> session_meets(
                    engine,
                    request,
                    session,
                    #[trigger] clauses[i],
                )) <==> session_passes(engine, session, project_name, since, until)
        }),
{
    lemma_list_request::<E>(limit, project_name, since, until);
    let request = listing::<E>(limit, project_name, since, until).next->Ask_1;
    let clauses = list_clauses(project_name, since, until);
    let p = 1 + one(project_name);
    let s = p + one(since);
    if project_name is Some {
        assert(clauses[0] == Clause { comparison: Comparison::Project, place: 1 });
    }
    if since is Some {
        assert(clauses[p - 1] == Clause { comparison: Comparison::Since, place: p });
    }
    if until is Some {
        assert(clauses[s - 1] == Clause { comparison: Comparison::Until, place: s });
    }
    if session_passes(engine, session, project_name, since, until) {
        assert forall|i: int| 0 <= i < clauses.len() implies session_meets(
            engine,
            request,
            session,
            #[trigger] clauses[i],
        ) by {
            assert((project_name is Some && i == 0) || (since is Some && i == p - 1) || (
            until is Some && i == s - 1));
        }
    }
}

/// Two filters that agree keep the same.
proof fn lemma_filter_same<A>(all: Seq<A>, a: spec_fn(A) -> bool, b: spec_fn(A) -> bool)
    requires
        forall|x: A| #[trigger] a(x) == b(x),
    ensures
        all.filter(a) == all.filter(b),
    decreases all.len(),
{
    reveal(Seq::filter);
    if all.len() > 0 {
        lemma_filter_same(all.drop_last(), a, b);
        assert(a(all.last()) == b(all.last()));
    }
}

/// The first members of `all`, at most `limit`. One that a 64-bit integer cannot hold is no
/// limit.
pub open spec fn first_of<A>(all: Seq<A>, limit: usize) -> Seq<A> {
    if limit < all.len() && limit <= i64::MAX {
        all.take(limit as int)
    } else {
        all
    }
}

/// A limit that leaves room for all leaves all.
proof fn lemma_limit_of_all<A>(all: Seq<A>, limit: usize)
    requires
        limit >= all.len(),
    ensures
        limited(all, limit_value(limit)) == all,
        first_of(all, limit) == all,
{
}

/// The session `session_id` in a listing.
pub open spec fn summary_of(tables: Tables, session_id: Seq<char>) -> SummaryModel {
    SummaryModel {
        session_id,
        project: tables.sessions[session_id].project,
        started_at: tables.sessions[session_id].started_at,
        message_count: messages_of(tables.messages, session_id).len() as i64,
        first_user_message: preview_of(
            candidates(tables, session_id, "user"@, 10),
            candidates(tables, session_id, "assistant"@, 3),
        ),
    }
}

/// `found` with previews from session `from` on.
pub open spec fn previewed(tables: Tables, found: Seq<SummaryModel>, from: nat) -> Seq<
    SummaryModel,
> {
    Seq::new(
        found.len(),
        |i: int|
            if i < from {
                found[i]
            } else {
                SummaryModel {
                    first_user_message: summary_of(
                        tables,
                        found[i].session_id,
                    ).first_user_message,
                    ..found[i]
                }
            },
    )
}

/// A listing that has reached session `from` reads the previews from there on.
proof fn lemma_previews<E>(
    engine: Engine,
    tables: Tables,
    found: Seq<SummaryModel>,
    from: nat,
    replies: Seq<ReplyModel<E>>,
    listed: Seq<SummaryModel>,
    new_tables: Tables,
)
    requires
        from <= found.len(),
        ends::<ListSessions, E>(
            engine,
            tables,
            list_from::<E>(found, from),
            replies,
            Ok(listed),
            new_tables,
        ),
    ensures
        new_tables == tables,
        listed == previewed(tables, found, from),
    decreases found.len() - from,
{
    let step = list_from::<E>(found, from);
    if from < found.len() {
        let id = found[from as int].session_id;
        let user_texts = candidates(tables, id, "user"@, 10);
        let assistant_texts = candidates(tables, id, "assistant"@, 3);
        let second_tables = lemma_ends_ask::<ListSessions, E>(
            engine,
            tables,
            step,
            replies,
            Ok(listed),
            new_tables,
        );
        assert(second_tables == tables);
        let user = replies.first();
        let rest = replies.drop_first();
        let next = <ListSessions as Task<E>>::after(step.next->Ask_0, user);
        assert(user.failure is None);
        lemma_text_rows(user, user_texts);
        let preview = preview_of(user_texts, assistant_texts);
        let further = with_preview(found, from, preview);
        if first_meaningful(user_texts) is Some {
            lemma_previews(engine, tables, further, from + 1, rest, listed, new_tables);
        } else {
            let third_tables = lemma_ends_ask::<ListSessions, E>(
                engine,
                tables,
                next,
                rest,
                Ok(listed),
                new_tables,
            );
            assert(third_tables == tables);
            assert(rest.first().failure is None);
            lemma_text_rows(rest.first(), assistant_texts);
            lemma_previews(
                engine,
                tables,
                further,
                from + 1,
                rest.drop_first(),
                listed,
                new_tables,
            );
        }
        assert(previewed(tables, further, from + 1) =~= previewed(tables, found, from));
    } else {
        assert(previewed(tables, found, from) =~= found);
    }
}

/// A listing gives the stored sessions that meet its filters, the most recent first, at
/// most as many as its limit, each as it is stored and with the preview that its messages
/// give. It changes nothing.
pub proof fn law_listed_sessions<E>(
    engine: Engine,
    old_tables: Tables,
    limit: usize,
    project_name: Option<Seq<char>>,
    since: Option<Seq<char>>,
    until: Option<Seq<char>>,
    replies: Seq<ReplyModel<E>>,
    listed: Seq<SummaryModel>,
    new_tables: Tables,
)
    requires
        ends::<ListSessions, E>(
            engine,
            old_tables,
            listing::<E>(limit, project_name, since, until),
            replies,
            Ok(listed),
            new_tables,
        ),
    ensures
        new_tables == old_tables,
        listed == first_of(
            selected(engine, old_tables, project_name, since, until),
            limit,
        ).map_values(|id: Seq<char>| summary_of(old_tables, id)),
{
    let start = listing::<E>(limit, project_name, since, until);
    let ids = first_of(selected(engine, old_tables, project_name, since, until), limit);
    let request = start.next->Ask_1;
    let clauses = list_clauses(project_name, since, until);
    let in_text = |id: Seq<char>|
        forall|i: int|
            0 <= i < clauses.len() ==> session_meets(
                engine,
                request,
                old_tables.sessions[id],
                #[trigger] clauses[i],
            );
    let passes = |id: Seq<char>|
        session_passes(engine, old_tables.sessions[id], project_name, since, until);
    lemma_list_request::<E>(limit, project_name, since, until);
    assert forall|id: Seq<char>| #[trigger] in_text(id) == passes(id) by {
        lemma_list_conditions::<E>(
            engine,
            limit,
            project_name,
            since,
            until,
            old_tables.sessions[id],
        );
    }
    let recent = (engine.recent)(old_tables.sessions);
    lemma_filter_same(recent, in_text, passes);
    recent.lemma_filter_len(passes);
    let tables = lemma_ends_ask::<ListSessions, E>(
        engine,
        old_tables,
        start,
        replies,
        Ok(listed),
        new_tables,
    );
    let reply = replies.first();
    assert(tables == old_tables);
    assert(summaries_in(reply) is Ok);
    assert(reply.failure is None);
    let found = summaries_in(reply)->Ok_0;
    assert(statement_of(request).sql == list_sql(clauses, clauses.len() + 1));
    let bound = bound_integer(request, (clauses.len() + 1) as int);
    assert(limited(recent.filter(passes), bound) == ids);
    assert(reply.rows == ids.map_values(|id: Seq<char>| session_row(old_tables, id)));
    assert forall|i: int| 0 <= i < ids.len() implies found[i] == (SummaryModel {
        first_user_message: None,
        ..summary_of(old_tables, #[trigger] ids[i])
    }) by {
        assert(reply.rows[i] == session_row(old_tables, ids[i]));
    }
    lemma_previews(
        engine,
        old_tables,
        found,
        0,
        replies.drop_first(),
        listed,
        new_tables,
    );
    assert(listed =~= ids.map_values(|id: Seq<char>| summary_of(old_tables, id)));
}

/// A listing with filters is the listing without them, in the same order, of which only
/// the sessions are left that meet every filter that is given. The limit must leave room
/// for all sessions, and no two of them may be equally recent.
pub proof fn law_filters_narrow_the_listing<E>(
    engine: Engine,
    tables: Tables,
    limit: usize,
    project_name: Option<Seq<char>>,
    since: Option<Seq<char>>,
    until: Option<Seq<char>>,
    all_replies: Seq<ReplyModel<E>>,
    all: Seq<SummaryModel>,
    all_tables: Tables,
    replies: Seq<ReplyModel<E>>,
    listed: Seq<SummaryModel>,
    new_tables: Tables,
)
    requires
        different_stamps(tables.sessions),
        limit >= (engine.recent)(tables.sessions).len(),
        ends::<ListSessions, E>(
            engine,
            tables,
            listing::<E>(limit, None, None, None),
            all_replies,
            Ok(all),
            all_tables,
        ),
        ends::<ListSessions, E>(
            engine,
            tables,
            listing::<E>(limit, project_name, since, until),
            replies,
            Ok(listed),
            new_tables,
        ),
    ensures
        listed == all.filter(
            |s: SummaryModel|
                session_passes(
                    engine,
                    tables.sessions[s.session_id],
                    project_name,
                    since,
                    until,
                ),
        ),
{
    law_listed_sessions(engine, tables, limit, None, None, None, all_replies, all, all_tables);
    law_listed_sessions(
        engine,
        tables,
        limit,
        project_name,
        since,
        until,
        replies,
        listed,
        new_tables,
    );
    let ids = (engine.recent)(tables.sessions);
    let none = |id: Seq<char>| session_passes(engine, tables.sessions[id], None, None, None);
    let passes = |id: Seq<char>|
        session_passes(engine, tables.sessions[id], project_name, since, until);
    let summary = |id: Seq<char>| summary_of(tables, id);
    lemma_filter_all_or_none(ids, none);
    ids.lemma_filter_len(passes);
    lemma_limit_of_all(ids, limit);
    lemma_limit_of_all(ids.filter(passes), limit);
    lemma_filter_map(
        ids,
        summary,
        passes,
        |s: SummaryModel|
            session_passes(engine, tables.sessions[s.session_id], project_name, since, until),
    );
}

/// A listing is in the order of the sessions' starts, the most recent first.
pub proof fn law_listing_is_in_order<E>(
    engine: Engine,
    tables: Tables,
    limit: usize,
    replies: Seq<ReplyModel<E>>,
    all: Seq<SummaryModel>,
    new_tables: Tables,
)
    requires
        engine.orders(tables.sessions),
        limit >= (engine.recent)(tables.sessions).len(),
        ends::<ListSessions, E>(
            engine,
            tables,
            listing::<E>(limit, None, None, None),
            replies,
            Ok(all),
            new_tables,
        ),
    ensures
        forall|id: Seq<char>| #[trigger]
            tables.sessions.contains_key(id) <==> exists|i: int|
                0 <= i < all.len() && (#[trigger] all[i]).session_id == id,
        forall|i: int, j: int|
            0 <= i < j < all.len() ==> (#[trigger] all[i]).session_id != (
            #[trigger] all[j]).session_id && (engine.at_most)(
                stamp(tables.sessions[all[j].session_id]),
                stamp(tables.sessions[all[i].session_id]),
            ),
{
    law_listed_sessions(engine, tables, limit, None, None, None, replies, all, new_tables);
    let ids = (engine.recent)(tables.sessions);
    let none = |id: Seq<char>| session_passes(engine, tables.sessions[id], None, None, None);
    lemma_filter_all_or_none(ids, none);
    lemma_limit_of_all(ids, limit);
    assert(forall|i: int| 0 <= i < ids.len() ==> (#[trigger] all[i]).session_id == ids[i]);
    assert forall|id: Seq<char>| #[trigger] tables.sessions.contains_key(id) implies exists|i: int|
        0 <= i < all.len() && (#[trigger] all[i]).session_id == id by {
        let i = choose|i: int| 0 <= i < ids.len() && ids[i] == id;
        assert(all[i].session_id == id);
    }
    assert forall|id: Seq<char>|
        (exists|i: int| 0 <= i < all.len() && (#[trigger] all[i]).session_id
            == id) implies #[trigger] tables.sessions.contains_key(id) by {
        let i = choose|i: int| 0 <= i < all.len() && (#[trigger] all[i]).session_id == id;
        assert(ids[i] == id);
        assert(ids.contains(id));
    }
}

/// The session at an index is the one at that index of a listing of all sessions; behind
/// its end there is none, and the error names the position, counted from 1. No two sessions
/// may be equally recent.
pub proof fn law_recent_session_is_listed_there<E>(
    engine: Engine,
    tables: Tables,
    limit: usize,
    list_replies: Seq<ReplyModel<E>>,
    all: Seq<SummaryModel>,
    list_tables: Tables,
    n: usize,
    replies: Seq<ReplyModel<E>>,
    result: Result<Seq<char>, ErrorModel<E>>,
    new_tables: Tables,
)
    requires
        different_stamps(tables.sessions),
        limit >= (engine.recent)(tables.sessions).len(),
        (engine.recent)(tables.sessions).len() <= i64::MAX,
        ends::<ListSessions, E>(
            engine,
            tables,
            listing::<E>(limit, None, None, None),
            list_replies,
            Ok(all),
            list_tables,
        ),
        ends::<NthRecentSessionId, E>(
            engine,
            tables,
            looking_up::<E>(n),
            replies,
            result,
            new_tables,
        ),
        replies.first().failure is None,
    ensures
        new_tables == tables,
        result == if n < all.len() {
            Ok::<Seq<char>, ErrorModel<E>>(all[n as int].session_id)
        } else {
            Err::<Seq<char>, ErrorModel<E>>(ErrorModel::NoSessionAt { position: (n + 1) as nat })
        },
{
    law_listed_sessions(engine, tables, limit, None, None, None, list_replies, all, list_tables);
    let ids = (engine.recent)(tables.sessions);
    let none = |id: Seq<char>| session_passes(engine, tables.sessions[id], None, None, None);
    lemma_filter_all_or_none(ids, none);
    let last = lemma_ends_ask::<NthRecentSessionId, E>(
        engine,
        tables,
        looking_up::<E>(n),
        replies,
        result,
        new_tables,
    );
    assert(last == tables);
    let reply = replies.first();
    if offset_value(n) < ids.len() {
        assert(n < ids.len());
        assert(reply.rows == text_rows(seq![ids[n as int]]));
        assert(reply.rows[0] == seq![ValueModel::Text(ids[n as int])]);
        assert(all[n as int].session_id == ids[n as int]);
    } else {
        assert(n >= ids.len());
    }
}

/// A search gives what it finds in the order of its rank, at most as many as its limit,
/// and changes nothing.
proof fn lemma_found<E>(
    engine: Engine,
    old_tables: Tables,
    query: Seq<char>,
    limit: usize,
    project_name: Option<Seq<char>>,
    role: Option<Seq<char>>,
    since: Option<Seq<char>>,
    until: Option<Seq<char>>,
    replies: Seq<ReplyModel<E>>,
    found: Seq<SearchResultModel>,
    new_tables: Tables,
)
    requires
        old_tables.index is Some,
        old_tables.index->0.complete,
        escaped_query(query).len() > 0,
        ends::<FetchMessages, E>(
            engine,
            old_tables,
            searching::<E>(query, limit, project_name, role, since, until),
            replies,
            Ok(found),
            new_tables,
        ),
    ensures
        new_tables == old_tables,
        found == first_of(
            (engine.ranked)(
                old_tables,
                escaped_query(query),
                hits(engine, old_tables, query, project_name, role, since, until),
            ),
            limit,
        ),
{
    let start = searching::<E>(query, limit, project_name, role, since, until);
    let request = start.next->Ask_1;
    let clauses = search_clauses(project_name, role, since, until);
    lemma_search_request::<E>(query, limit, project_name, role, since, until);
    let tables = lemma_ends_ask::<FetchMessages, E>(
        engine,
        old_tables,
        start,
        replies,
        Ok(found),
        new_tables,
    );
    assert(tables == old_tables);
    let reply = replies.first();
    assert(reply.failure is None);
    let ordered = (engine.ranked)(
        old_tables,
        escaped_query(query),
        hits(engine, old_tables, query, project_name, role, since, until),
    );
    let in_text = |m: SearchResultModel|
        forall|i: int|
            0 <= i < clauses.len() ==> message_meets(engine, request, m, #[trigger] clauses[i]);
    let passes = |m: SearchResultModel|
        (engine.matches)(escaped_query(query), m.content) && message_passes(
            engine,
            m,
            project_name,
            role,
            since,
            until,
        );
    assert forall|m: SearchResultModel| #[trigger] in_text(m) == passes(m) by {
        lemma_search_conditions::<E>(
            engine,
            query,
            limit,
            project_name,
            role,
            since,
            until,
            m,
        );
    }
    lemma_filter_same(joined(old_tables), in_text, passes);
    assert(statement_of(request).sql == search_sql(clauses, clauses.len() + 1));
    assert(clauses[0] == Clause { comparison: Comparison::Matches, place: 1 });
    assert(limited(ordered, bound_integer(request, (clauses.len() + 1) as int)) == first_of(
        ordered,
        limit,
    ));
    lemma_message_rows(reply, first_of(ordered, limit));
}

/// A search finds the stored messages that match the query and meet the filters, each as
/// it is stored and as many as the limit allows, and changes nothing.
pub proof fn law_found_messages<E>(
    engine: Engine,
    tables: Tables,
    query: Seq<char>,
    limit: usize,
    project_name: Option<Seq<char>>,
    role: Option<Seq<char>>,
    since: Option<Seq<char>>,
    until: Option<Seq<char>>,
    replies: Seq<ReplyModel<E>>,
    found: Seq<SearchResultModel>,
    new_tables: Tables,
)
    requires
        engine.ranks(),
        tables.index is Some,
        tables.index->0.complete,
        escaped_query(query).len() > 0,
        ends::<FetchMessages, E>(
            engine,
            tables,
            searching::<E>(query, limit, project_name, role, since, until),
            replies,
            Ok(found),
            new_tables,
        ),
    ensures
        new_tables == tables,
        ({
            let all = hits(engine, tables, query, project_name, role, since, until);
            &&& found.len() == if limit < all.len() && limit <= i64::MAX {
                limit as nat
            } else {
                all.len()
            }
            &&& found.to_multiset().subset_of(all.to_multiset())
            &&& limit >= all.len() ==> found.to_multiset() == all.to_multiset()
        }),
{
    broadcast use vstd::multiset::group_multiset_axioms;
    broadcast use vstd::seq_lib::group_to_multiset_ensures;

    lemma_found(
        engine,
        tables,
        query,
        limit,
        project_name,
        role,
        since,
        until,
        replies,
        found,
        new_tables,
    );
    let all = hits(engine, tables, query, project_name, role, since, until);
    let ordered = (engine.ranked)(tables, escaped_query(query), all);
    assert(ordered.to_multiset() == all.to_multiset());
    ordered.to_multiset_ensures();
    all.to_multiset_ensures();
    assert(ordered.len() == all.len());
    if found.len() < ordered.len() {
        let n = found.len() as int;
        assert(ordered =~= ordered.take(n) + ordered.skip(n));
        vstd::seq_lib::lemma_multiset_commutative(ordered.take(n), ordered.skip(n));
    }
}

/// What a search with filters finds is what the search without them finds, of which only
/// the messages are left that meet every filter that is given. The limit must leave room
/// for all messages.
pub proof fn law_filters_narrow_the_search<E>(
    engine: Engine,
    tables: Tables,
    query: Seq<char>,
    limit: usize,
    project_name: Option<Seq<char>>,
    role: Option<Seq<char>>,
    since: Option<Seq<char>>,
    until: Option<Seq<char>>,
    all_replies: Seq<ReplyModel<E>>,
    all: Seq<SearchResultModel>,
    all_tables: Tables,
    replies: Seq<ReplyModel<E>>,
    found: Seq<SearchResultModel>,
    new_tables: Tables,
)
    requires
        engine.ranks(),
        tables.index is Some,
        tables.index->0.complete,
        limit >= tables.messages.len(),
        ends::<FetchMessages, E>(
            engine,
            tables,
            searching::<E>(query, limit, None, None, None, None),
            all_replies,
            Ok(all),
            all_tables,
        ),
        ends::<FetchMessages, E>(
            engine,
            tables,
            searching::<E>(query, limit, project_name, role, since, until),
            replies,
            Ok(found),
            new_tables,
        ),
    ensures
        found.to_multiset() == all.to_multiset().filter(
            |m: SearchResultModel|
                message_passes(engine, m, project_name, role, since, until),
        ),
{
    let passes = |m: SearchResultModel|
        message_passes(engine, m, project_name, role, since, until);
    if escaped_query(query).len() == 0 {
        assert(found == all);
        lemma_filter_all_or_none(all, passes);
        lemma_filter_multiset(all, passes);
        assert(all.filter(passes) =~= all);
    } else {
        law_found_messages(
            engine,
            tables,
            query,
            limit,
            None,
            None,
            None,
            None,
            all_replies,
            all,
            all_tables,
        );
        law_found_messages(
            engine,
            tables,
            query,
            limit,
            project_name,
            role,
            since,
            until,
            replies,
            found,
            new_tables,
        );
        let every = joined(tables);
        let matching = |m: SearchResultModel|
            (engine.matches)(escaped_query(query), m.content) && message_passes(
                engine,
                m,
                None,
                None,
                None,
                None,
            );
        let both = |m: SearchResultModel|
            (engine.matches)(escaped_query(query), m.content) && message_passes(
                engine,
                m,
                project_name,
                role,
                since,
                until,
            );
        tables.messages.lemma_filter_len(
            |m: StoredMessage| tables.sessions.contains_key(m.session_id),
        );
        every.lemma_filter_len(matching);
        every.lemma_filter_len(both);
        lemma_filter_twice(every, matching, passes, both);
        lemma_filter_multiset(every.filter(matching), passes);
    }
}

/// Filtering makes no duplicates.
proof fn lemma_filter_no_duplicates<A>(all: Seq<A>, keep: spec_fn(A) -> bool)
    requires
        all.no_duplicates(),
    ensures
        all.filter(keep).no_duplicates(),
    decreases all.len(),
{
    reveal(Seq::filter);
    if all.len() > 0 {
        let head = all.drop_last();
        lemma_filter_no_duplicates(head, keep);
        lemma_filter_members(head, keep, all.last());
        assert(!head.contains(all.last()));
    }
}

/// A prefix resolves to the one stored session whose identifier starts with it, up to the
/// case of ASCII letters; where there is none, or more than one, it is an error.
pub proof fn law_prefix_resolves_to_its_session<E>(
    engine: Engine,
    tables: Tables,
    prefix: Seq<char>,
    replies: Seq<ReplyModel<E>>,
    result: Result<Seq<char>, ErrorModel<E>>,
    new_tables: Tables,
    session_id: Seq<char>,
)
    requires
        engine.likes_prefixes(),
        ends::<ResolveSessionId, E>(
            engine,
            tables,
            resolving::<E>(prefix),
            replies,
            result,
            new_tables,
        ),
        replies.first().failure is None,
    ensures
        new_tables == tables,
        result == Ok::<Seq<char>, ErrorModel<E>>(session_id) <==> {
            &&& tables.sessions.contains_key(session_id)
            &&& starts_like(session_id, prefix)
            &&& forall|id: Seq<char>| #[trigger]
                tables.sessions.contains_key(id) && starts_like(id, prefix) ==> id == session_id
        },
{
    let last = lemma_ends_ask::<ResolveSessionId, E>(
        engine,
        tables,
        resolving::<E>(prefix),
        replies,
        result,
        new_tables,
    );
    assert(last == tables);
    let ids = choose|ids: Seq<Seq<char>>|
        {
            &&& #[trigger] start_with_texts(replies.first().rows, ids)
            &&& ids.no_duplicates()
            &&& forall|id: Seq<char>| #[trigger]
                ids.contains(id) <==> tables.sessions.contains_key(id) && (engine.like)(
                    prefix + "%"@,
                    id,
                )
        };
    lemma_first_texts(replies.first(), ids);
    let starts = |id: Seq<char>| starts_like(id, prefix);
    let kept = starting_with(prefix, ids);
    lemma_filter_no_duplicates(ids, starts);
    assert forall|id: Seq<char>| #[trigger]
        kept.contains(id) <==> tables.sessions.contains_key(id) && starts_like(id, prefix) by {
        lemma_filter_members(ids, starts, id);
        if starts_like(id, prefix) {
            assert((engine.like)(prefix + "%"@, id));
        }
        assert(ids.contains(id) <==> tables.sessions.contains_key(id) && (engine.like)(
            prefix + "%"@,
            id,
        ));
    }
    if kept.len() == 1 {
        assert(kept.contains(kept[0]));
        assert forall|id: Seq<char>| #[trigger]
            tables.sessions.contains_key(id) && starts_like(id, prefix) implies id == kept[0] by {
            assert(kept.contains(id));
        }
        if tables.sessions.contains_key(session_id) && starts_like(session_id, prefix) {
            assert(kept.contains(session_id));
        }
    } else if kept.len() > 1 {
        assert(kept.contains(kept[0]) && kept.contains(kept[1]));
        assert(kept[0] != kept[1]);
        assert(tables.sessions.contains_key(kept[0]) && tables.sessions.contains_key(kept[1]));
    } else {
        assert(!kept.contains(session_id));
    }
}

} // verus!
