//! What the operations ask of the database: the statements, and the values bound to their
//! parameters.
use vstd::prelude::*;
use crate::filter::{limited_query, numbered, when_given, ConditionModel};
use crate::fts::{escaped_query, law_blank_queries_escape_to_nothing};
use crate::laws::previews::blank;
use crate::laws::reading::{
    lemma_directories_with, lemma_list_request, lemma_search_request, lemma_search_values,
    lemma_where, list_clauses, one, search_clauses,
};
use crate::messages::{reading, searching};
use crate::report::fetch_rows;
use crate::sessions::{fetch_texts, listing, looking_up, resolving};
use crate::store::{
    counting, deleting, execute, fetch_count, storing_message, storing_session, DeleteSession,
    Stats,
};
use crate::tables::{
    directories_with, list_clause, nullable, search_clause, statement_of, where_text, Clause,
    Comparison,
};
use crate::task::{Column, ReplyModel, RequestModel, StatementModel, Task, ValueModel};
use crate::text::{contains, decimal, lemma_occurs_between};
use crate::vault::batch;

verus! {

/// A session is stored with its identifier, its project and its start, whatever they are; a
/// start that is not given is a null.
pub proof fn law_stored_session_values<E>(
    session_id: Seq<char>,
    project: Seq<char>,
    started_at: Option<Seq<char>>,
)
    ensures
        ({
            let start = storing_session::<E>(session_id, project, started_at);
            &&& start.lines.len() == 0
            &&& start.next is Ask
            &&& start.next->Ask_1 == (RequestModel::Execute {
                statement: StatementModel {
                    sql: "INSERT INTO sessions (session_id, project, started_at)
     VALUES (?1, ?2, ?3)
     ON CONFLICT(session_id) DO UPDATE SET
        project = excluded.project,
        started_at = COALESCE(excluded.started_at, sessions.started_at)"@,
                    params: seq![
                        ValueModel::Text(session_id),
                        ValueModel::Text(project),
                        nullable(started_at),
                    ],
                },
            })
        }),
{
}

/// A message is stored with its session, its identifier, its role, its content and its time,
/// whatever they are; an identifier or a time that is not given is a null, and no value
/// depends on another one.
pub proof fn law_stored_message_values<E>(
    session_id: Seq<char>,
    uuid: Option<Seq<char>>,
    role: Seq<char>,
    content: Seq<char>,
    timestamp: Option<Seq<char>>,
)
    ensures
        ({
            let start = storing_message::<E>(session_id, uuid, role, content, timestamp);
            &&& start.lines.len() == 0
            &&& start.next is Ask
            &&& start.next->Ask_1 == (RequestModel::Execute {
                statement: StatementModel {
                    sql: "INSERT OR IGNORE INTO messages (session_id, uuid, role, content, timestamp)
     VALUES (?1, ?2, ?3, ?4, ?5)"@,
                    params: seq![
                        ValueModel::Text(session_id),
                        nullable(uuid),
                        ValueModel::Text(role),
                        ValueModel::Text(content),
                        nullable(timestamp),
                    ],
                },
            })
        }),
{
}

/// The messages of a session are asked for by its identifier, as it is.
pub proof fn law_read_session_values<E>(session_id: Seq<char>)
    ensures
        ({
            let start = reading::<E>(session_id);
            &&& start.lines.len() == 0
            &&& start.next is Ask
            &&& start.next->Ask_1 == (RequestModel::FetchAll {
                statement: StatementModel {
                    sql: "SELECT m.session_id, s.project, m.role, m.content, m.timestamp
     FROM messages m
     JOIN sessions s ON s.session_id = m.session_id
     WHERE m.session_id = ?1
     ORDER BY m.id ASC"@,
                    params: seq![ValueModel::Text(session_id)],
                },
                columns: seq![
                    Column::Text,
                    Column::Text,
                    Column::Text,
                    Column::Text,
                    Column::OptionalText,
                ],
            })
        }),
{
}

/// A session and its messages are deleted by its identifier, as it is, the messages first.
pub proof fn law_deleted_session_values<E>(session_id: Seq<char>, reply: ReplyModel<E>)
    requires
        reply.failure is None,
    ensures
        ({
            let start = deleting::<E>(session_id);
            let second = <DeleteSession as Task<E>>::after(start.next->Ask_0, reply);
            &&& start.lines.len() == 0
            &&& start.next is Ask
            &&& start.next->Ask_1 == (RequestModel::Execute {
                statement: StatementModel {
                    sql: "DELETE FROM messages WHERE session_id = ?1"@,
                    params: seq![ValueModel::Text(session_id)],
                },
            })
            &&& second.next is Ask
            &&& second.next->Ask_1 == (RequestModel::Execute {
                statement: StatementModel {
                    sql: "DELETE FROM sessions WHERE session_id = ?1"@,
                    params: seq![ValueModel::Text(session_id)],
                },
            })
        }),
{
}

/// A prefix is looked for as it is, and a position by its index, or by the largest one that
/// can be bound.
pub proof fn law_looked_up_values<E>(prefix: Seq<char>, n: usize)
    ensures
        ({
            let by_prefix = resolving::<E>(prefix);
            let by_position = looking_up::<E>(n);
            &&& by_prefix.lines.len() == 0
            &&& by_prefix.next is Ask
            &&& by_prefix.next->Ask_1 == (RequestModel::FetchAll {
                statement: StatementModel {
                    sql: "SELECT session_id FROM sessions WHERE session_id LIKE ?1 || '%'"@,
                    params: seq![ValueModel::Text(prefix)],
                },
                columns: seq![Column::Text],
            })
            &&& by_position.lines.len() == 0
            &&& by_position.next is Ask
            &&& by_position.next->Ask_1 == (RequestModel::FetchFirst {
                statement: StatementModel {
                    sql: "SELECT session_id FROM sessions
     ORDER BY COALESCE(started_at, imported_at) DESC
     LIMIT 1 OFFSET ?1"@,
                    params: seq![
                        ValueModel::Integer(
                            if n <= i64::MAX {
                                n as i64
                            } else {
                                i64::MAX
                            },
                        ),
                    ],
                },
                columns: seq![Column::Text],
            })
        }),
{
}

/// The sessions are counted first, and then the messages.
pub proof fn law_counting_statements<E>(n: i64, reply: ReplyModel<E>)
    requires
        reply.failure is None,
        reply.rows == seq![seq![ValueModel::Integer(n)]],
    ensures
        ({
            let start = counting::<E>();
            let second = <Stats as Task<E>>::after(start.next->Ask_0, reply);
            &&& start.lines.len() == 0
            &&& start.next is Ask
            &&& start.next->Ask_1 == (RequestModel::FetchFirst {
                statement: StatementModel {
                    sql: "SELECT COUNT(*) FROM sessions"@,
                    params: seq![],
                },
                columns: seq![Column::Integer],
            })
            &&& second.next is Ask
            &&& second.next->Ask_1 == (RequestModel::FetchFirst {
                statement: StatementModel {
                    sql: "SELECT COUNT(*) FROM messages"@,
                    params: seq![],
                },
                columns: seq![Column::Integer],
            })
        }),
{
}

/// A request for a count, for rows or for texts, and one to run a statement, has the given
/// statement and binds the given values, whatever they are.
pub proof fn law_plain_requests(
    sql: Seq<char>,
    text: Seq<char>,
    params: Seq<ValueModel>,
    columns: Seq<Column>,
)
    ensures
        fetch_count(sql) == (RequestModel::FetchFirst {
            statement: StatementModel { sql, params: seq![] },
            columns: seq![Column::Integer],
        }),
        fetch_rows(sql, columns) == (RequestModel::FetchAll {
            statement: StatementModel { sql, params: seq![] },
            columns,
        }),
        fetch_texts(sql, text) == (RequestModel::FetchAll {
            statement: StatementModel { sql, params: seq![ValueModel::Text(text)] },
            columns: seq![Column::Text],
        }),
        execute(sql, params) == (RequestModel::Execute {
            statement: StatementModel { sql, params },
        }),
        batch(sql) == (RequestModel::Batch { sql }),
{
}

/// The value bound to a limit: a negative one, which is none, where it does not fit.
pub open spec fn bound_limit(limit: usize) -> i64 {
    if limit <= i64::MAX {
        limit as i64
    } else {
        (-1) as i64
    }
}

/// Whether the text of a query holds the condition that `start` and a parameter's number make,
/// with `value` bound to that parameter.
pub open spec fn holds(statement: StatementModel, start: Seq<char>, value: Seq<char>) -> bool {
    exists|k: nat|
        1 <= k <= statement.params.len() && #[trigger] contains(
            statement.sql,
            start + decimal(k),
        ) && statement.params[k - 1] == ValueModel::Text(value)
}

/// Conditions hold each of their texts.
proof fn lemma_where_holds(texts: Seq<Seq<char>>, i: int)
    requires
        0 <= i < texts.len(),
    ensures
        exists|left: Seq<char>, right: Seq<char>|
            where_text(texts) == #[trigger] (left + texts[i] + right),
    decreases texts.len(),
{
    let none = Seq::<char>::empty();
    if texts.len() == 1 {
        assert(where_text(texts) =~= " WHERE "@ + texts[0] + none);
    } else if i == texts.len() - 1 {
        let left = where_text(texts.drop_last()) + " AND "@;
        assert(where_text(texts) =~= left + texts[i] + none);
    } else {
        let head = texts.drop_last();
        lemma_where_holds(head, i);
        let (left, right) = choose|left: Seq<char>, right: Seq<char>|
            where_text(head) == #[trigger] (left + head[i] + right);
        let more = right + " AND "@ + texts.last();
        assert(where_text(texts) =~= left + texts[i] + more);
    }
}

/// The text of a query with conditions holds each of them.
proof fn lemma_holds_condition(
    select: Seq<char>,
    texts: Seq<Seq<char>>,
    tail: Seq<char>,
    i: int,
)
    requires
        0 <= i < texts.len(),
    ensures
        contains(select + where_text(texts) + tail, texts[i]),
{
    lemma_where_holds(texts, i);
    let (left, right) = choose|left: Seq<char>, right: Seq<char>|
        where_text(texts) == #[trigger] (left + texts[i] + right);
    assert(select + where_text(texts) + tail =~= (select + left) + texts[i] + (right + tail));
    lemma_occurs_between(select + left, texts[i], right + tail);
}

/// The statement of a search holds the condition of its query and that of every filter that
/// is given, each with its own value bound to it, whatever the other filters are. The
/// limit is bound last, and nothing else is bound.
pub proof fn law_search_holds_its_filters<E>(
    query: Seq<char>,
    limit: usize,
    project_name: Option<Seq<char>>,
    role: Option<Seq<char>>,
    since: Option<Seq<char>>,
    until: Option<Seq<char>>,
)
    requires
        !blank(query),
    ensures
        ({
            let start = searching::<E>(query, limit, project_name, role, since, until);
            let statement = statement_of(start.next->Ask_1);
            &&& start.lines.len() == 0
            &&& start.next is Ask
            &&& start.next->Ask_1 is FetchAll
            &&& start.next->Ask_1->FetchAll_columns == seq![
                Column::Text,
                Column::Text,
                Column::Text,
                Column::Text,
                Column::OptionalText,
            ]
            &&& holds(statement, "messages_fts MATCH ?"@, escaped_query(query))
            &&& project_name matches Some(name) ==> holds(
                statement,
                "s.project LIKE ?"@,
                directories_with(name),
            )
            &&& role matches Some(text) ==> holds(statement, "m.role = ?"@, text)
            &&& since matches Some(text) ==> holds(statement, "m.timestamp >= ?"@, text)
            &&& until matches Some(text) ==> holds(statement, "m.timestamp <= ?"@, text)
            &&& statement.params.len() == 2 + one(project_name) + one(role) + one(since) + one(
                until,
            )
            &&& statement.params.last() == ValueModel::Integer(bound_limit(limit))
        }),
{
    law_blank_queries_escape_to_nothing(query);
    lemma_search_request::<E>(query, limit, project_name, role, since, until);
    lemma_search_values(query, limit, project_name, role, since, until);
    let request = searching::<E>(query, limit, project_name, role, since, until).next->Ask_1;
    let statement = statement_of(request);
    let clauses = search_clauses(project_name, role, since, until);
    let texts = clauses.map_values(|c: Clause| search_clause(c));
    let place = clauses.len() + 1;
    let p = 2 + one(project_name);
    let r = p + one(role);
    let s = r + one(since);
    let select =
        "SELECT m.session_id, s.project, m.role, m.content, m.timestamp
     FROM messages_fts f
     JOIN messages m ON m.id = f.rowid
     JOIN sessions s ON s.session_id = m.session_id"@;
    let tail = " ORDER BY rank"@ + " LIMIT ?"@ + decimal(place);
    assert(statement.sql =~= select + where_text(texts) + tail);
    assert(clauses[0] == Clause { comparison: Comparison::Matches, place: 1 });
    lemma_holds_condition(select, texts, tail, 0);
    assert(contains(statement.sql, "messages_fts MATCH ?"@ + decimal(1)));
    if project_name is Some {
        lemma_directories_with(project_name->0);
        assert(clauses[1] == Clause { comparison: Comparison::Project, place: 2 });
        lemma_holds_condition(select, texts, tail, 1);
        assert(contains(statement.sql, "s.project LIKE ?"@ + decimal(2)));
    }
    if role is Some {
        assert(clauses[p - 1] == Clause { comparison: Comparison::Role, place: p });
        lemma_holds_condition(select, texts, tail, p - 1);
        assert(contains(statement.sql, "m.role = ?"@ + decimal(p)));
    }
    if since is Some {
        assert(clauses[r - 1] == Clause { comparison: Comparison::Since, place: r });
        lemma_holds_condition(select, texts, tail, r - 1);
        assert(contains(statement.sql, "m.timestamp >= ?"@ + decimal(r)));
    }
    if until is Some {
        assert(clauses[s - 1] == Clause { comparison: Comparison::Until, place: s });
        lemma_holds_condition(select, texts, tail, s - 1);
        assert(contains(statement.sql, "m.timestamp <= ?"@ + decimal(s)));
    }
}

/// The statement of a listing holds the condition of every filter that is given, with its own
/// value bound to it, whatever the other filters are. The limit is bound last.
pub proof fn law_listing_holds_its_filters<E>(
    limit: usize,
    project_name: Option<Seq<char>>,
    since: Option<Seq<char>>,
    until: Option<Seq<char>>,
)
    ensures
        ({
            let start = listing::<E>(limit, project_name, since, until);
            let statement = statement_of(start.next->Ask_1);
            &&& start.lines.len() == 0
            &&& start.next is Ask
            &&& start.next->Ask_1 is FetchAll
            &&& start.next->Ask_1->FetchAll_columns == seq![
                Column::Text,
                Column::Text,
                Column::OptionalText,
                Column::Integer,
            ]
            &&& project_name matches Some(name) ==> holds(
                statement,
                "s.project LIKE ?"@,
                directories_with(name),
            )
            &&& since matches Some(text) ==> holds(
                statement,
                "COALESCE(s.started_at, s.imported_at) >= ?"@,
                text,
            )
            &&& until matches Some(text) ==> holds(
                statement,
                "COALESCE(s.started_at, s.imported_at) <= ?"@,
                text,
            )
            &&& statement.params.len() == 1 + one(project_name) + one(since) + one(until)
            &&& statement.params.last() == ValueModel::Integer(bound_limit(limit))
        }),
{
    lemma_list_request::<E>(limit, project_name, since, until);
    let request = listing::<E>(limit, project_name, since, until).next->Ask_1;
    let statement = statement_of(request);
    let clauses = list_clauses(project_name, since, until);
    let texts = clauses.map_values(|c: Clause| list_clause(c));
    let place = clauses.len() + 1;
    let p = 1 + one(project_name);
    let s = p + one(since);
    let select =
        "SELECT s.session_id, s.project, s.started_at,
            (SELECT COUNT(*) FROM messages m WHERE m.session_id = s.session_id) as msg_count,
            NULL as first_msg
     FROM sessions s"@;
    let tail = " ORDER BY COALESCE(s.started_at, s.imported_at) DESC"@ + " LIMIT ?"@ + decimal(
        place,
    );
    assert(statement.sql =~= select + where_text(texts) + tail);
    if project_name is Some {
        lemma_directories_with(project_name->0);
        assert(clauses[0] == Clause { comparison: Comparison::Project, place: 1 });
        lemma_holds_condition(select, texts, tail, 0);
        assert(contains(statement.sql, "s.project LIKE ?"@ + decimal(1)));
    }
    if since is Some {
        assert(clauses[p - 1] == Clause { comparison: Comparison::Since, place: p });
        lemma_holds_condition(select, texts, tail, p - 1);
        assert(contains(
            statement.sql,
            "COALESCE(s.started_at, s.imported_at) >= ?"@ + decimal(p),
        ));
    }
    if until is Some {
        assert(clauses[s - 1] == Clause { comparison: Comparison::Until, place: s });
        lemma_holds_condition(select, texts, tail, s - 1);
        assert(contains(
            statement.sql,
            "COALESCE(s.started_at, s.imported_at) <= ?"@ + decimal(s),
        ));
    }
}

/// A query with conditions starts with the given text, has `WHERE` in front of the first
/// condition and `AND` in front of the others, each with the number of its parameter behind
/// it, and ends with the order and the limit. The parameters are bound to the values of the
/// conditions, in their order, and to the limit.
pub proof fn law_query_with_conditions(
    select: Seq<char>,
    conditions: Seq<ConditionModel>,
    order: Seq<char>,
    limit: usize,
)
    ensures
        ({
            let query = limited_query(select, conditions, order, limit);
            let n = conditions.len();
            let texts = Seq::new(n, |i: int| conditions[i].clause + decimal((i + 1) as nat));
            &&& query.sql == select + where_text(texts) + order + " LIMIT ?"@ + decimal(n + 1)
            &&& query.params.len() == n + 1
            &&& forall|i: int|
                0 <= i < n ==> #[trigger] query.params[i] == ValueModel::Text(conditions[i].value)
            &&& query.params[n as int] == ValueModel::Integer(bound_limit(limit))
        }),
{
    let texts = Seq::new(
        conditions.len(),
        |i: int| conditions[i].clause + decimal((i + 1) as nat),
    );
    assert(numbered(conditions) =~= texts);
    if texts.len() > 0 {
        lemma_where(texts);
    } else {
        assert(where_text(texts) =~= seq![]);
    }
}

/// A condition is there exactly where its value is given, and has that value.
pub proof fn law_condition_when_given(clause: Seq<char>, value: Seq<char>)
    ensures
        when_given(clause, None).len() == 0,
        when_given(clause, Some(value)).len() == 1,
        when_given(clause, Some(value))[0].clause == clause,
        when_given(clause, Some(value))[0].value == value,
{
}

} // verus!
