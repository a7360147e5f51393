//! A model of the database: what the archive's statements do to its tables.
//!
//! The library talks to no database, so nothing in it is proved of one. The model says
//! what a database answers to the requests of the archive. What is proved of an operation
//! and the tables together holds of every database that answers in this way.
use vstd::prelude::*;
use crate::error::ErrorModel;
use crate::fts::escaped_query;
use crate::messages::SearchResultModel;
use crate::task::{
    is_query, Column, NextModel, ReplyModel, RequestModel, StatementModel, StepModel, Task,
    ValueModel,
};
use crate::text::{contains, decimal, starts_like};

verus! {

/// What is stored of a session, beside its identifier.
#[verifier::ext_equal]
pub struct StoredSession {
    pub project: Seq<char>,
    pub started_at: Option<Seq<char>>,
    pub imported_at: Seq<char>,
}

/// What is stored of a message.
#[verifier::ext_equal]
pub struct StoredMessage {
    pub session_id: Seq<char>,
    pub uuid: Option<Seq<char>>,
    pub role: Seq<char>,
    pub content: Seq<char>,
    pub timestamp: Option<Seq<char>>,
}

/// The full-text index.
#[verifier::ext_equal]
pub struct Index {
    /// How it was created.
    pub sql: Seq<char>,
    /// Whether every message can be found by it, and nothing else.
    pub complete: bool,
    /// Whether it has no texts of its own and lists those of the messages.
    pub external: bool,
}

/// The tables of the archive.
#[verifier::ext_equal]
pub struct Tables {
    /// Whether the tables are there.
    pub created: bool,
    /// The sessions by their identifiers.
    pub sessions: Map<Seq<char>, StoredSession>,
    /// The messages in the order in which they were stored.
    pub messages: Seq<StoredMessage>,
    /// The full-text index, where there is one.
    pub index: Option<Index>,
    /// Whether triggers keep the index up to date.
    pub triggers: bool,
}

/// What a database decides by itself.
pub struct Engine {
    /// Whether a text is `LIKE` a pattern (pattern, text).
    pub like: spec_fn(Seq<char>, Seq<char>) -> bool,
    /// Whether a text is `<=` another.
    pub at_most: spec_fn(Seq<char>, Seq<char>) -> bool,
    /// Whether a full-text query matches a text (query, text).
    pub matches: spec_fn(Seq<char>, Seq<char>) -> bool,
    /// The identifiers of the sessions, the most recent first. Sessions that are equally
    /// recent are taken to come in the same order every time, which no database promises:
    /// laws that compare two listings ask for sessions of different times.
    pub recent: spec_fn(Map<Seq<char>, StoredSession>) -> Seq<Seq<char>>,
    /// What a full-text query has found, the best first. The order is taken to depend on
    /// the tables, the query and what it has found, and on nothing else.
    pub ranked: spec_fn(Tables, Seq<char>, Seq<SearchResultModel>) -> Seq<SearchResultModel>,
    /// Whether a message must have its session. A local vault sees to that when it is
    /// opened.
    pub enforces: bool,
}

/// When a session was started, or else stored.
pub open spec fn stamp(session: StoredSession) -> Seq<char> {
    match session.started_at {
        Some(started_at) => started_at,
        None => session.imported_at,
    }
}

impl Engine {
    /// Whether the order of the sessions is one: it names each of them once, and none in
    /// front of a more recent one.
    pub open spec fn orders(self, sessions: Map<Seq<char>, StoredSession>) -> bool {
        let ids = (self.recent)(sessions);
        &&& ids.no_duplicates()
        &&& forall|id: Seq<char>| ids.contains(id) <==> #[trigger] sessions.contains_key(id)
        &&& forall|i: int, j: int|
            0 <= i < j < ids.len() ==> (self.at_most)(
                stamp(sessions[#[trigger] ids[j]]),
                stamp(sessions[#[trigger] ids[i]]),
            )
    }

    /// Whether ranking keeps what was found and only puts it in order.
    pub open spec fn ranks(self) -> bool {
        forall|tables: Tables, query: Seq<char>, found: Seq<SearchResultModel>| #[trigger]
            (self.ranked)(tables, query, found).to_multiset() == found.to_multiset()
    }

    /// Whether a text is like each of its own starts, in upper case or lower, with `%`
    /// behind it.
    pub open spec fn likes_prefixes(self) -> bool {
        forall|prefix: Seq<char>, text: Seq<char>|
            starts_like(text, prefix) ==> #[trigger] (self.like)(prefix + "%"@, text)
    }
}

/// The pattern of the directories that hold `name` with a hyphen for each slash.
pub open spec fn directories_with(name: Seq<char>) -> Seq<char> {
    "%"@ + Seq::new(
        name.len(),
        |i: int|
            if name[i] == '/' {
                '-'
            } else {
                name[i]
            },
    ) + "%"@
}

/// Whether a session meets the filters of a listing.
pub open spec fn session_passes(
    engine: Engine,
    session: StoredSession,
    project_name: Option<Seq<char>>,
    since: Option<Seq<char>>,
    until: Option<Seq<char>>,
) -> bool {
    &&& project_name matches Some(name) ==> (engine.like)(
        directories_with(name),
        session.project,
    )
    &&& since matches Some(text) ==> (engine.at_most)(text, stamp(session))
    &&& until matches Some(text) ==> (engine.at_most)(stamp(session), text)
}

/// Whether a message meets the filters of a search.
pub open spec fn message_passes(
    engine: Engine,
    message: SearchResultModel,
    project_name: Option<Seq<char>>,
    role: Option<Seq<char>>,
    since: Option<Seq<char>>,
    until: Option<Seq<char>>,
) -> bool {
    &&& project_name matches Some(name) ==> (engine.like)(
        directories_with(name),
        message.project,
    )
    &&& role matches Some(text) ==> message.role == text
    &&& since matches Some(text) ==> message.timestamp is Some && (engine.at_most)(
        text,
        message.timestamp->0,
    )
    &&& until matches Some(text) ==> message.timestamp is Some && (engine.at_most)(
        message.timestamp->0,
        text,
    )
}

/// The first members, as many as the value bound to `LIMIT` allows.
pub open spec fn limited<A>(all: Seq<A>, limit: i64) -> Seq<A> {
    if limit < 0 || limit >= all.len() {
        all
    } else {
        all.take(limit as int)
    }
}

/// The messages of a session.
pub open spec fn messages_of(messages: Seq<StoredMessage>, session_id: Seq<char>) -> Seq<
    StoredMessage,
> {
    messages.filter(|m: StoredMessage| m.session_id == session_id)
}

/// Whether a message with the identifier `uuid` is stored.
pub open spec fn taken(messages: Seq<StoredMessage>, uuid: Option<Seq<char>>) -> bool {
    uuid is Some && exists|i: int| 0 <= i < messages.len() && #[trigger] messages[i].uuid == uuid
}

/// Whether no two messages have the same identifier.
pub open spec fn distinct_uuids(messages: Seq<StoredMessage>) -> bool {
    forall|i: int, j: int|
        0 <= i < j < messages.len() && #[trigger] messages[i].uuid is Some
            ==> #[trigger] messages[j].uuid != messages[i].uuid
}

/// Whether every message has its session.
pub open spec fn attached(tables: Tables) -> bool {
    forall|i: int|
        0 <= i < tables.messages.len() ==> tables.sessions.contains_key(
            (#[trigger] tables.messages[i]).session_id,
        )
}

/// Whether no two sessions are equally recent.
pub open spec fn different_stamps(sessions: Map<Seq<char>, StoredSession>) -> bool {
    forall|a: Seq<char>, b: Seq<char>|
        #[trigger] sessions.contains_key(a) && #[trigger] sessions.contains_key(b) && a != b
            ==> stamp(sessions[a]) != stamp(sessions[b])
}

/// The identifiers of the sessions that meet the filters, the most recent first.
pub open spec fn selected(
    engine: Engine,
    tables: Tables,
    project_name: Option<Seq<char>>,
    since: Option<Seq<char>>,
    until: Option<Seq<char>>,
) -> Seq<Seq<char>> {
    (engine.recent)(tables.sessions).filter(
        |id: Seq<char>|
            session_passes(engine, tables.sessions[id], project_name, since, until),
    )
}

/// The value of a column that may be null.
pub open spec fn nullable(text: Option<Seq<char>>) -> ValueModel {
    if text is Some {
        ValueModel::Text(text->0)
    } else {
        ValueModel::Null
    }
}

/// The row of a session in a listing.
pub open spec fn session_row(tables: Tables, session_id: Seq<char>) -> Seq<ValueModel> {
    seq![
        ValueModel::Text(session_id),
        ValueModel::Text(tables.sessions[session_id].project),
        nullable(tables.sessions[session_id].started_at),
        ValueModel::Integer(messages_of(tables.messages, session_id).len() as i64),
    ]
}

/// A message together with the project of its session.
pub open spec fn result_of(
    sessions: Map<Seq<char>, StoredSession>,
    message: StoredMessage,
) -> SearchResultModel {
    SearchResultModel {
        session_id: message.session_id,
        project: sessions[message.session_id].project,
        role: message.role,
        content: message.content,
        timestamp: message.timestamp,
    }
}

/// The row of a message.
pub open spec fn message_row(message: SearchResultModel) -> Seq<ValueModel> {
    seq![
        ValueModel::Text(message.session_id),
        ValueModel::Text(message.project),
        ValueModel::Text(message.role),
        ValueModel::Text(message.content),
        nullable(message.timestamp),
    ]
}

/// All messages whose session is stored.
pub open spec fn joined(tables: Tables) -> Seq<SearchResultModel> {
    tables.messages.filter(
        |m: StoredMessage| tables.sessions.contains_key(m.session_id),
    ).map_values(|m: StoredMessage| result_of(tables.sessions, m))
}

/// The messages of a stored session.
pub open spec fn messages_read(tables: Tables, session_id: Seq<char>) -> Seq<SearchResultModel> {
    if tables.sessions.contains_key(session_id) {
        messages_of(tables.messages, session_id).map_values(
            |m: StoredMessage| result_of(tables.sessions, m),
        )
    } else {
        seq![]
    }
}

/// What a search finds.
pub open spec fn hits(
    engine: Engine,
    tables: Tables,
    query: Seq<char>,
    project_name: Option<Seq<char>>,
    role: Option<Seq<char>>,
    since: Option<Seq<char>>,
    until: Option<Seq<char>>,
) -> Seq<SearchResultModel> {
    joined(tables).filter(
        |m: SearchResultModel|
            (engine.matches)(escaped_query(query), m.content) && message_passes(
                engine,
                m,
                project_name,
                role,
                since,
                until,
            ),
    )
}

/// The starts of the first messages, at most `most`, of `role` in a session.
pub open spec fn candidates(
    tables: Tables,
    session_id: Seq<char>,
    role: Seq<char>,
    most: nat,
) -> Seq<Seq<char>> {
    let all = messages_of(tables.messages, session_id).filter(
        |m: StoredMessage| m.role == role,
    ).map_values(
        |m: StoredMessage|
            if m.content.len() > 200 {
                m.content.take(200)
            } else {
                m.content
            },
    );
    if all.len() > most {
        all.take(most as int)
    } else {
        all
    }
}

/// Rows of one text each.
pub open spec fn text_rows(texts: Seq<Seq<char>>) -> Seq<Seq<ValueModel>> {
    texts.map_values(|text: Seq<char>| seq![ValueModel::Text(text)])
}

/// Whether the rows start with these texts, a text each.
pub open spec fn start_with_texts(rows: Seq<Seq<ValueModel>>, texts: Seq<Seq<char>>) -> bool {
    &&& rows.len() == texts.len()
    &&& forall|i: int|
        0 <= i < rows.len() ==> (#[trigger] rows[i]).len() > 0 && rows[i][0] == ValueModel::Text(
            texts[i],
        )
}

/// The row of one number.
pub open spec fn number_row(n: nat) -> Seq<Seq<ValueModel>> {
    seq![seq![ValueModel::Integer(n as i64)]]
}

/// The tables with a session stored or updated; `now` is the time.
pub open spec fn with_session(
    tables: Tables,
    session_id: Seq<char>,
    project: Seq<char>,
    started_at: Option<Seq<char>>,
    now: Seq<char>,
) -> Tables {
    let known = tables.sessions.contains_key(session_id);
    let session = StoredSession {
        project,
        started_at: if started_at is None && known {
            tables.sessions[session_id].started_at
        } else {
            started_at
        },
        imported_at: if known {
            tables.sessions[session_id].imported_at
        } else {
            now
        },
    };
    Tables { sessions: tables.sessions.insert(session_id, session), ..tables }
}

/// The tables with other messages. Without triggers the index falls behind.
pub open spec fn with_messages(tables: Tables, messages: Seq<StoredMessage>) -> Tables {
    Tables {
        messages,
        index: match tables.index {
            Some(index) => Some(Index { complete: index.complete && tables.triggers, ..index }),
            None => None,
        },
        ..tables
    }
}

/// The statement of a request.
pub open spec fn statement_of(request: RequestModel) -> StatementModel {
    match request {
        RequestModel::Execute { statement } => statement,
        RequestModel::FetchAll { statement, .. } => statement,
        RequestModel::FetchFirst { statement, .. } => statement,
        _ => StatementModel { sql: seq![], params: seq![] },
    }
}

/// Whether a request runs the statement `sql` with `n` parameters.
pub open spec fn runs(request: RequestModel, sql: Seq<char>, n: nat) -> bool {
    request is Execute && statement_of(request).sql == sql && statement_of(request).params.len()
        == n
}

/// Whether a request reads the rows of the query `sql` with `n` parameters.
pub open spec fn reads(
    request: RequestModel,
    sql: Seq<char>,
    n: nat,
    columns: Seq<Column>,
) -> bool {
    request is FetchAll && statement_of(request).sql == sql && statement_of(request).params.len()
        == n && request->FetchAll_columns == columns
}

/// Whether a request reads the first row of the query `sql` with `n` parameters.
pub open spec fn reads_first(
    request: RequestModel,
    sql: Seq<char>,
    n: nat,
    columns: Seq<Column>,
) -> bool {
    request is FetchFirst && statement_of(request).sql == sql && statement_of(
        request,
    ).params.len() == n && request->FetchFirst_columns == columns
}

/// The text that is bound to parameter `?k`.
pub open spec fn bound_text(request: RequestModel, k: int) -> Seq<char> {
    match statement_of(request).params[k - 1] {
        ValueModel::Text(text) => text,
        _ => seq![],
    }
}

/// The text that is bound to parameter `?k`, or `None` for a null.
pub open spec fn bound_optional(request: RequestModel, k: int) -> Option<Seq<char>> {
    match statement_of(request).params[k - 1] {
        ValueModel::Text(text) => Some(text),
        _ => None,
    }
}

/// The integer that is bound to parameter `?k`.
pub open spec fn bound_integer(request: RequestModel, k: int) -> i64 {
    match statement_of(request).params[k - 1] {
        ValueModel::Integer(n) => n,
        _ => 0,
    }
}

/// The message that a request to store one binds.
pub open spec fn bound_message(request: RequestModel) -> StoredMessage {
    StoredMessage {
        session_id: bound_text(request, 1),
        uuid: bound_optional(request, 2),
        role: bound_text(request, 3),
        content: bound_text(request, 4),
        timestamp: bound_optional(request, 5),
    }
}

/// What the statements that store and delete do to the tables. Where a message must have
/// its session, one without is refused, and so is the deletion of a session that has any.
pub open spec fn answers_write<E>(
    engine: Engine,
    old_tables: Tables,
    request: RequestModel,
    reply: ReplyModel<E>,
    new_tables: Tables,
) -> bool {
    &&& runs(
        request,
        "INSERT INTO sessions (session_id, project, started_at)
     VALUES (?1, ?2, ?3)
     ON CONFLICT(session_id) DO UPDATE SET
        project = excluded.project,
        started_at = COALESCE(excluded.started_at, sessions.started_at)"@,
        3,
    ) && reply.failure is None ==> new_tables == with_session(
        old_tables,
        bound_text(request, 1),
        bound_text(request, 2),
        bound_optional(request, 3),
        new_tables.sessions[bound_text(request, 1)].imported_at,
    )
    &&& runs(
        request,
        "INSERT OR IGNORE INTO messages (session_id, uuid, role, content, timestamp)
     VALUES (?1, ?2, ?3, ?4, ?5)"@,
        5,
    ) ==> {
        let message = bound_message(request);
        &&& reply.failure is None && taken(old_tables.messages, message.uuid) ==> reply.count == 0
            && new_tables == old_tables
        &&& reply.failure is None && !taken(old_tables.messages, message.uuid) ==> reply.count == 1
            && new_tables == with_messages(old_tables, old_tables.messages.push(message))
        &&& engine.enforces && !old_tables.sessions.contains_key(message.session_id) && !taken(
            old_tables.messages,
            message.uuid,
        ) ==> reply.failure is Some && new_tables == old_tables
    }
    &&& runs(request, "DELETE FROM messages WHERE session_id = ?1"@, 1)
        && reply.failure is None ==> {
        let id = bound_text(request, 1);
        &&& reply.count as nat == messages_of(old_tables.messages, id).len()
        &&& new_tables == with_messages(
            old_tables,
            old_tables.messages.filter(|m: StoredMessage| m.session_id != id),
        )
    }
    &&& runs(request, "DELETE FROM sessions WHERE session_id = ?1"@, 1) ==> {
        let id = bound_text(request, 1);
        &&& reply.failure is None ==> new_tables == (Tables {
            sessions: old_tables.sessions.remove(id),
            ..old_tables
        })
        &&& engine.enforces && messages_of(old_tables.messages, id).len() > 0
            ==> reply.failure is Some && new_tables == old_tables
    }
}

/// What a condition of a query compares.
pub enum Comparison {
    Matches,
    Project,
    Role,
    Since,
    Until,
}

/// A condition of a query: what it compares, with the value of which parameter.
pub struct Clause {
    pub comparison: Comparison,
    pub place: nat,
}

/// The text of a condition of a search.
pub open spec fn search_clause(clause: Clause) -> Seq<char> {
    (match clause.comparison {
        Comparison::Matches => "messages_fts MATCH ?"@,
        Comparison::Project => "s.project LIKE ?"@,
        Comparison::Role => "m.role = ?"@,
        Comparison::Since => "m.timestamp >= ?"@,
        Comparison::Until => "m.timestamp <= ?"@,
    }) + decimal(clause.place)
}

/// The text of a condition of a listing.
pub open spec fn list_clause(clause: Clause) -> Seq<char> {
    (match clause.comparison {
        Comparison::Since => "COALESCE(s.started_at, s.imported_at) >= ?"@,
        Comparison::Until => "COALESCE(s.started_at, s.imported_at) <= ?"@,
        _ => "s.project LIKE ?"@,
    }) + decimal(clause.place)
}

/// The conditions of a query, one after the other.
pub open spec fn where_text(texts: Seq<Seq<char>>) -> Seq<char>
    decreases texts.len(),
{
    if texts.len() == 0 {
        seq![]
    } else if texts.len() == 1 {
        " WHERE "@ + texts[0]
    } else {
        where_text(texts.drop_last()) + " AND "@ + texts.last()
    }
}

/// The text of a search with the conditions `clauses` and the limit in parameter `?place`.
pub open spec fn search_sql(clauses: Seq<Clause>, place: nat) -> Seq<char> {
    "SELECT m.session_id, s.project, m.role, m.content, m.timestamp
     FROM messages_fts f
     JOIN messages m ON m.id = f.rowid
     JOIN sessions s ON s.session_id = m.session_id"@ + where_text(
        clauses.map_values(|c: Clause| search_clause(c)),
    ) + " ORDER BY rank"@ + " LIMIT ?"@ + decimal(place)
}

/// The text of a listing with the conditions `clauses` and the limit in parameter `?place`.
pub open spec fn list_sql(clauses: Seq<Clause>, place: nat) -> Seq<char> {
    "SELECT s.session_id, s.project, s.started_at,
            (SELECT COUNT(*) FROM messages m WHERE m.session_id = s.session_id) as msg_count,
            NULL as first_msg
     FROM sessions s"@ + where_text(
        clauses.map_values(|c: Clause| list_clause(c)),
    ) + " ORDER BY COALESCE(s.started_at, s.imported_at) DESC"@ + " LIMIT ?"@ + decimal(place)
}

/// Whether every parameter that the conditions and the limit name is bound.
pub open spec fn all_bound(request: RequestModel, clauses: Seq<Clause>, place: nat) -> bool {
    &&& 1 <= place <= statement_of(request).params.len()
    &&& forall|i: int|
        0 <= i < clauses.len() ==> 1 <= (#[trigger] clauses[i]).place <= statement_of(
            request,
        ).params.len()
}

/// Whether a message meets a condition of a search.
pub open spec fn message_meets(
    engine: Engine,
    request: RequestModel,
    message: SearchResultModel,
    clause: Clause,
) -> bool {
    let value = bound_text(request, clause.place as int);
    match clause.comparison {
        Comparison::Matches => (engine.matches)(value, message.content),
        Comparison::Project => (engine.like)(value, message.project),
        Comparison::Role => message.role == value,
        Comparison::Since => message.timestamp is Some && (engine.at_most)(
            value,
            message.timestamp->0,
        ),
        Comparison::Until => message.timestamp is Some && (engine.at_most)(
            message.timestamp->0,
            value,
        ),
    }
}

/// Whether a session meets a condition of a listing.
pub open spec fn session_meets(
    engine: Engine,
    request: RequestModel,
    session: StoredSession,
    clause: Clause,
) -> bool {
    let value = bound_text(request, clause.place as int);
    match clause.comparison {
        Comparison::Since => (engine.at_most)(value, stamp(session)),
        Comparison::Until => (engine.at_most)(stamp(session), value),
        _ => (engine.like)(value, session.project),
    }
}

/// What a search reads: its conditions and its limit are those that stand in its text, with
/// the values that are bound to their parameters.
pub open spec fn answers_search<E>(
    engine: Engine,
    tables: Tables,
    request: RequestModel,
    reply: ReplyModel<E>,
) -> bool {
    forall|clauses: Seq<Clause>, place: nat|
        {
            &&& request is FetchAll
            &&& statement_of(request).sql == #[trigger] search_sql(clauses, place)
            &&& request->FetchAll_columns == seq![
                Column::Text,
                Column::Text,
                Column::Text,
                Column::Text,
                Column::OptionalText,
            ]
            &&& all_bound(request, clauses, place)
            &&& clauses.len() > 0
            &&& clauses[0].comparison is Matches
            &&& reply.failure is None
            &&& tables.index is Some
            &&& tables.index->0.complete
        } ==> reply.rows == limited(
            (engine.ranked)(
                tables,
                bound_text(request, clauses[0].place as int),
                joined(tables).filter(
                    |m: SearchResultModel|
                        forall|i: int|
                            0 <= i < clauses.len() ==> message_meets(
                                engine,
                                request,
                                m,
                                #[trigger] clauses[i],
                            ),
                ),
            ),
            bound_integer(request, place as int),
        ).map_values(|m: SearchResultModel| message_row(m))
}

/// What a listing reads: its conditions and its limit are those that stand in its text, with
/// the values that are bound to their parameters.
pub open spec fn answers_list<E>(
    engine: Engine,
    tables: Tables,
    request: RequestModel,
    reply: ReplyModel<E>,
) -> bool {
    forall|clauses: Seq<Clause>, place: nat|
        {
            &&& request is FetchAll
            &&& statement_of(request).sql == #[trigger] list_sql(clauses, place)
            &&& request->FetchAll_columns == seq![
                Column::Text,
                Column::Text,
                Column::OptionalText,
                Column::Integer,
            ]
            &&& all_bound(request, clauses, place)
            &&& reply.failure is None
        } ==> reply.rows == limited(
            (engine.recent)(tables.sessions).filter(
                |id: Seq<char>|
                    forall|i: int|
                        0 <= i < clauses.len() ==> session_meets(
                            engine,
                            request,
                            tables.sessions[id],
                            #[trigger] clauses[i],
                        ),
            ),
            bound_integer(request, place as int),
        ).map_values(|id: Seq<char>| session_row(tables, id))
}

/// Whether a value can stand in a column.
pub open spec fn fits(value: ValueModel, column: Column) -> bool {
    match column {
        Column::Text => value is Text,
        Column::OptionalText => value is Text || value is Null,
        Column::Integer => value is Integer,
    }
}

/// Whether the rows of a reply have the columns that were asked for.
pub open spec fn well_typed<E>(request: RequestModel, reply: ReplyModel<E>) -> bool {
    let columns = if request is FetchAll {
        request->FetchAll_columns
    } else {
        request->FetchFirst_columns
    };
    forall|i: int|
        0 <= i < reply.rows.len() ==> (#[trigger] reply.rows[i]).len() == columns.len() && forall|
            j: int,
        |
            0 <= j < columns.len() ==> fits(#[trigger] reply.rows[i][j], columns[j])
}

/// What the queries read from the tables. Where the first row alone is asked for, a failure
/// means that there is none.
pub open spec fn answers_read<E>(
    engine: Engine,
    tables: Tables,
    request: RequestModel,
    reply: ReplyModel<E>,
) -> bool {
    &&& request is FetchFirst && reply.failure is Some ==> reply.rows.len() == 0
    &&& answers_list(engine, tables, request, reply)
    &&& answers_search(engine, tables, request, reply)
    &&& reads(
        request,
        "SELECT substr(content, 1, 200) FROM messages
     WHERE session_id = ?1 AND role = 'user'
     ORDER BY id ASC LIMIT 10"@,
        1,
        seq![Column::Text],
    ) && reply.failure is None ==> reply.rows == text_rows(
        candidates(tables, bound_text(request, 1), "user"@, 10),
    )
    &&& reads(
        request,
        "SELECT substr(content, 1, 200) FROM messages
     WHERE session_id = ?1 AND role = 'assistant'
     ORDER BY id ASC LIMIT 3"@,
        1,
        seq![Column::Text],
    ) && reply.failure is None ==> reply.rows == text_rows(
        candidates(tables, bound_text(request, 1), "assistant"@, 3),
    )
    &&& reads(
        request,
        "SELECT session_id FROM sessions WHERE session_id LIKE ?1 || '%'"@,
        1,
        seq![Column::Text],
    ) && reply.failure is None ==> exists|ids: Seq<Seq<char>>|
        {
            &&& #[trigger] start_with_texts(reply.rows, ids)
            &&& ids.no_duplicates()
            &&& forall|id: Seq<char>| #[trigger]
                ids.contains(id) <==> tables.sessions.contains_key(id) && (engine.like)(
                    bound_text(request, 1) + "%"@,
                    id,
                )
        }
    &&& reads_first(
        request,
        "SELECT session_id FROM sessions
     ORDER BY COALESCE(started_at, imported_at) DESC
     LIMIT 1 OFFSET ?1"@,
        1,
        seq![Column::Text],
    ) && reply.failure is None ==> {
        let ids = (engine.recent)(tables.sessions);
        let offset = bound_integer(request, 1);
        reply.rows == if ids.len() == 0 || offset >= ids.len() {
            seq![]
        } else if offset < 0 {
            text_rows(seq![ids[0]])
        } else {
            text_rows(seq![ids[offset as int]])
        }
    }
    &&& reads_first(request, "SELECT COUNT(*) FROM sessions"@, 0, seq![Column::Integer])
        && reply.failure is None ==> reply.rows == number_row(tables.sessions.len())
    &&& reads_first(request, "SELECT COUNT(*) FROM messages"@, 0, seq![Column::Integer])
        && reply.failure is None ==> reply.rows == number_row(tables.messages.len())
    &&& reads_first(request, "SELECT COUNT(*) FROM messages_fts"@, 0, seq![Column::Integer])
        && reply.failure is None && tables.index is Some && tables.index->0.external
        ==> reply.rows == number_row(tables.messages.len())
    &&& reads_first(
        request,
        "SELECT COUNT(*) FROM (SELECT uuid, COUNT(*) as cnt FROM messages WHERE uuid IS NOT NULL GROUP BY uuid HAVING cnt > 1)"@,
        0,
        seq![Column::Integer],
    ) && reply.failure is None ==> {
        &&& reply.rows.len() > 0
        &&& reply.rows[0].len() > 0
        &&& reply.rows[0][0] is Integer
        &&& reply.rows[0][0]->Integer_0 == 0 <==> distinct_uuids(tables.messages)
    }
    &&& reads(
        request,
        "SELECT m.session_id, s.project, m.role, m.content, m.timestamp
     FROM messages m
     JOIN sessions s ON s.session_id = m.session_id
     WHERE m.session_id = ?1
     ORDER BY m.id ASC"@,
        1,
        seq![Column::Text, Column::Text, Column::Text, Column::Text, Column::OptionalText],
    ) && reply.failure is None ==> reply.rows == messages_read(
        tables,
        bound_text(request, 1),
    ).map_values(|m: SearchResultModel| message_row(m))
}

/// Whether the sessions and the messages are the same.
pub open spec fn same_rows(a: Tables, b: Tables) -> bool {
    a.sessions == b.sessions && a.messages == b.messages
}

/// Whether a request runs the statements `sql`, which have no parameters.
pub open spec fn runs_batch(request: RequestModel, sql: Seq<char>) -> bool {
    request is Batch && request->Batch_sql == sql
}

/// What the statements on the schema read from it and do to it. None of them touches a
/// session or a message.
pub open spec fn answers_schema<E>(
    old_tables: Tables,
    request: RequestModel,
    reply: ReplyModel<E>,
    new_tables: Tables,
) -> bool {
    &&& reads_first(
        request,
        "SELECT EXISTS(SELECT 1 FROM sqlite_master WHERE type='table' AND name='sessions'),
            (SELECT sql FROM sqlite_master WHERE type='table' AND name='messages_fts')"@,
        0,
        seq![Column::Integer, Column::OptionalText],
    ) && reply.failure is None ==> reply.rows == seq![
        seq![
            ValueModel::Integer(
                if old_tables.created {
                    1
                } else {
                    0
                },
            ),
            match old_tables.index {
                Some(index) => ValueModel::Text(index.sql),
                None => ValueModel::Null,
            },
        ],
    ]
    &&& reads_first(
        request,
        "SELECT EXISTS(SELECT 1 FROM sqlite_master WHERE type='table' AND name='messages_fts')"@,
        0,
        seq![Column::Integer],
    ) && reply.failure is None ==> reply.rows
        == number_row(
        if old_tables.index is Some {
            1
        } else {
            0
        },
    )
    &&& reads_first(
        request,
        "SELECT sql FROM sqlite_master WHERE type='table' AND name='messages_fts'"@,
        0,
        seq![Column::Text],
    ) && reply.failure is None ==> reply.rows == match old_tables.index {
        Some(index) => text_rows(seq![index.sql]),
        None => seq![],
    }
    &&& request is Batch ==> same_rows(old_tables, new_tables)
    &&& runs_batch(
        request,
        "
    CREATE TABLE IF NOT EXISTS sessions (
        session_id TEXT PRIMARY KEY,
        project    TEXT NOT NULL,
        started_at TEXT,
        imported_at TEXT NOT NULL DEFAULT (datetime('now'))
    );

    CREATE TABLE IF NOT EXISTS messages (
        id         INTEGER PRIMARY KEY AUTOINCREMENT,
        session_id TEXT NOT NULL,
        uuid       TEXT,
        role       TEXT NOT NULL,
        content    TEXT NOT NULL,
        timestamp  TEXT,
        FOREIGN KEY (session_id) REFERENCES sessions(session_id)
    );

    CREATE UNIQUE INDEX IF NOT EXISTS idx_messages_uuid
        ON messages(uuid) WHERE uuid IS NOT NULL;
    "@,
    ) && reply.failure is None ==> new_tables == (Tables {
        created: true,
        ..old_tables
    })
    &&& runs_batch(
        request,
        "
    DROP TRIGGER IF EXISTS messages_ai;
    DROP TRIGGER IF EXISTS messages_ad;
    DROP TRIGGER IF EXISTS messages_au;
    DROP TABLE messages_fts;
    "@,
    ) && reply.failure is None ==> new_tables == (Tables {
        index: None,
        triggers: false,
        ..old_tables
    })
    &&& runs_batch(
        request,
        "CREATE VIRTUAL TABLE messages_fts USING fts5(content, content_rowid='id', content='messages', tokenize='porter unicode61');"@,
    ) && reply.failure is None ==> {
        &&& new_tables.index is Some
        &&& contains(new_tables.index->0.sql, "tokenize='porter unicode61'"@)
        &&& new_tables == (Tables {
            index: Some(
                Index {
                    sql: new_tables.index->0.sql,
                    complete: old_tables.messages.len() == 0,
                    external: true,
                },
            ),
            ..old_tables
        })
    }
    &&& runs_batch(
        request,
        "INSERT INTO messages_fts(messages_fts) VALUES('rebuild')"@,
    ) && reply.failure is None ==> {
        &&& old_tables.index is Some
        &&& new_tables == (Tables {
            index: Some(Index { complete: true, ..old_tables.index->0 }),
            ..old_tables
        })
    }
    &&& runs_batch(
        request,
        "
    CREATE TRIGGER IF NOT EXISTS messages_ai AFTER INSERT ON messages BEGIN
        INSERT INTO messages_fts(rowid, content) VALUES (new.id, new.content);
    END;

    CREATE TRIGGER IF NOT EXISTS messages_ad AFTER DELETE ON messages BEGIN
        INSERT INTO messages_fts(messages_fts, rowid, content) VALUES('delete', old.id, old.content);
    END;

    CREATE TRIGGER IF NOT EXISTS messages_au AFTER UPDATE ON messages BEGIN
        INSERT INTO messages_fts(messages_fts, rowid, content) VALUES('delete', old.id, old.content);
        INSERT INTO messages_fts(rowid, content) VALUES (new.id, new.content);
    END;
    "@,
    ) && reply.failure is None ==> new_tables == (Tables {
        triggers: true,
        ..old_tables
    })
}

/// Whether a request changes nothing in the tables of a local vault.
pub open spec fn leaves_alone(request: RequestModel) -> bool {
    ||| is_query(request)
    ||| request is OpenLocal
    ||| request is Connect
    ||| runs_batch(
        request,
        "PRAGMA journal_mode=WAL;
     PRAGMA busy_timeout=5000;
     PRAGMA foreign_keys=ON;"@,
    )
}

/// Whether `reply` answers `request` on `old_tables` and leaves `new_tables`. A request
/// that failed may have done anything but touch the rows in a change of the schema.
pub open spec fn answers<E>(
    engine: Engine,
    old_tables: Tables,
    request: RequestModel,
    reply: ReplyModel<E>,
    new_tables: Tables,
) -> bool {
    &&& leaves_alone(request) ==> new_tables == old_tables
    &&& answers_write(engine, old_tables, request, reply, new_tables)
    &&& answers_read(engine, old_tables, request, reply)
    &&& answers_schema(old_tables, request, reply, new_tables)
}

/// Whether the operation that has come to `step`, with the tables `old_tables` and its
/// requests answered by `replies`, ends with `result` and leaves `new_tables`.
pub open spec fn ends<T: Task<E>, E>(
    engine: Engine,
    old_tables: Tables,
    step: StepModel<T::V, <T::Output as DeepView>::V, E>,
    replies: Seq<ReplyModel<E>>,
    result: Result<<T::Output as DeepView>::V, ErrorModel<E>>,
    new_tables: Tables,
) -> bool
    decreases replies.len(),
{
    match step.next {
        NextModel::Ask(state, request) => replies.len() > 0 && exists|tables: Tables|
            #[trigger] answers(engine, old_tables, request, replies.first(), tables) && ends::<
                T,
                E,
            >(
                engine,
                tables,
                T::after(state, replies.first()),
                replies.drop_first(),
                result,
                new_tables,
            ),
        NextModel::Done(value) => replies.len() == 0 && result == Ok::<
            <T::Output as DeepView>::V,
            ErrorModel<E>,
        >(value) && new_tables == old_tables,
        NextModel::Failed(error) => replies.len() == 0 && result == Err::<
            <T::Output as DeepView>::V,
            ErrorModel<E>,
        >(error) && new_tables == old_tables,
    }
}

/// Whether the requests of the operation that has come to `step`, with the tables
/// `old_tables`, answered by `replies`, bring it to `last` and leave `new_tables`.
pub open spec fn leads<T: Task<E>, E>(
    engine: Engine,
    old_tables: Tables,
    step: StepModel<T::V, <T::Output as DeepView>::V, E>,
    replies: Seq<ReplyModel<E>>,
    last: StepModel<T::V, <T::Output as DeepView>::V, E>,
    new_tables: Tables,
) -> bool
    decreases replies.len(),
{
    if replies.len() == 0 {
        last == step && new_tables == old_tables
    } else {
        step.next matches NextModel::Ask(state, request) && exists|tables: Tables| #[trigger]
            answers(engine, old_tables, request, replies.first(), tables) && leads::<T, E>(
                engine,
                tables,
                T::after(state, replies.first()),
                replies.drop_first(),
                last,
                new_tables,
            )
    }
}

/// Whether a reply has rows with the columns that were asked for, and one row where a count
/// was.
pub open spec fn read_whole<E>(request: RequestModel, reply: ReplyModel<E>) -> bool {
    &&& is_query(request) ==> well_typed(request, reply)
    &&& reads_first(
        request,
        "SELECT COUNT(DISTINCT project) FROM sessions"@,
        0,
        seq![Column::Integer],
    ) && reply.failure is None ==> reply.rows.len() == 1
    &&& reads_first(
        request,
        "SELECT COUNT(*) FROM messages_fts WHERE messages_fts MATCH ?1"@,
        1,
        seq![Column::Integer],
    ) && reply.failure is None ==> reply.rows.len() == 1
}

/// Whether every reply has rows with the columns that the operation, which has come to `step`,
/// asks for, and one row where it asks for a count.
pub open spec fn all_read_whole<T: Task<E>, E>(
    step: StepModel<T::V, <T::Output as DeepView>::V, E>,
    replies: Seq<ReplyModel<E>>,
) -> bool
    decreases replies.len(),
{
    match step.next {
        NextModel::Ask(state, request) if replies.len() > 0 => read_whole(request, replies.first())
            && all_read_whole::<T, E>(T::after(state, replies.first()), replies.drop_first()),
        _ => true,
    }
}

/// Whether opening a vault with these tables finds its schema current.
pub open spec fn ready(tables: Tables) -> bool {
    &&& tables.created
    &&& tables.index is Some
    &&& contains(tables.index->0.sql, "porter"@)
}

/// Whether the tables and the full-text index are there in the same form.
pub open spec fn same_schema(a: Tables, b: Tables) -> bool {
    &&& a.created == b.created
    &&& a.triggers == b.triggers
    &&& a.index is Some == b.index is Some
    &&& a.index is Some ==> a.index->0.sql == b.index->0.sql
}

} // verus!
