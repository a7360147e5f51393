//! Searching the messages, and reading those of one session.
use vstd::prelude::*;
use crate::error::{ErrorModel, VaultError};
use crate::filter::{
    build_limited_query, limited_query, push_when_given, when_given, Condition, ConditionModel,
};
use crate::fts::{escape_fts_query, escaped_query};
use crate::project::{normalize_project_filter, project_filter};
use crate::store::{message_values, session_values};
use crate::task::{
    ask, finish, optional_text_at, outcome, read_optional_text, read_text, text_at, text_value,
    Column, Reply, ReplyModel, Request, RequestModel, Statement, StatementModel, Step, StepModel,
    Task, Value, ValueModel,
};

verus! {

/// A message that was found.
#[derive(Debug, PartialEq, Eq)]
pub struct SearchResult {
    pub session_id: String,
    pub project: String,
    pub role: String,
    pub content: String,
    pub timestamp: Option<String>,
}

/// The model of a [`SearchResult`].
#[verifier::ext_equal]
pub struct SearchResultModel {
    pub session_id: Seq<char>,
    pub project: Seq<char>,
    pub role: Seq<char>,
    pub content: Seq<char>,
    pub timestamp: Option<Seq<char>>,
}

impl DeepView for SearchResult {
    type V = SearchResultModel;

    open spec fn deep_view(&self) -> SearchResultModel {
        SearchResultModel {
            session_id: self.session_id@,
            project: self.project@,
            role: self.role@,
            content: self.content@,
            timestamp: self.timestamp.deep_view(),
        }
    }
}

pub const SELECT_MATCHES: &'static str =
    "SELECT m.session_id, s.project, m.role, m.content, m.timestamp
     FROM messages_fts f
     JOIN messages m ON m.id = f.rowid
     JOIN sessions s ON s.session_id = m.session_id";

pub const SELECT_SESSION_MESSAGES: &'static str =
    "SELECT m.session_id, s.project, m.role, m.content, m.timestamp
     FROM messages m
     JOIN sessions s ON s.session_id = m.session_id
     WHERE m.session_id = ?1
     ORDER BY m.id ASC";

/// The columns of a message.
pub open spec fn message_columns() -> Seq<Column> {
    seq![Column::Text, Column::Text, Column::Text, Column::Text, Column::OptionalText]
}

/// The columns of a message.
fn columns_of_message() -> (columns: Vec<Column>)
    ensures
        columns.deep_view() == message_columns(),
{
    let columns: Vec<Column> = vec![
        Column::Text,
        Column::Text,
        Column::Text,
        Column::Text,
        Column::OptionalText,
    ];
    assert(columns.deep_view() =~= message_columns());
    columns
}

/// The message in a row.
pub open spec fn message_in(row: Seq<ValueModel>) -> Option<SearchResultModel> {
    match (
        text_at(row, 0),
        text_at(row, 1),
        text_at(row, 2),
        text_at(row, 3),
        optional_text_at(row, 4),
    ) {
        (
            Some(session_id),
            Some(project),
            Some(role),
            Some(content),
            Some(timestamp),
        ) => Some(SearchResultModel { session_id, project, role, content, timestamp }),
        _ => None,
    }
}

/// The messages in a reply, in the order of its rows. A row that is not a message
/// is an error, and so is a failure behind the rows.
pub open spec fn messages_in<E>(reply: ReplyModel<E>) -> Result<
    Seq<SearchResultModel>,
    ErrorModel<E>,
> {
    if exists|i: int| 0 <= i < reply.rows.len() && message_in(#[trigger] reply.rows[i]) is None {
        Err(ErrorModel::MalformedRow)
    } else {
        match reply.failure {
            Some(cause) => Err(ErrorModel::Database { cause }),
            None => Ok(Seq::new(reply.rows.len(), |i: int| message_in(reply.rows[i])->0)),
        }
    }
}

/// Reads the message in a row.
fn read_message(row: &Vec<Value>) -> (message: Option<SearchResult>)
    ensures
        message.deep_view() == message_in(row.deep_view()),
{
    match (
        read_text(row, 0),
        read_text(row, 1),
        read_text(row, 2),
        read_text(row, 3),
        read_optional_text(row, 4),
    ) {
        (
            Some(session_id),
            Some(project),
            Some(role),
            Some(content),
            Some(timestamp),
        ) => Some(SearchResult { session_id, project, role, content, timestamp }),
        _ => None,
    }
}

/// Reads the messages in a reply.
fn read_messages<E>(reply: Reply<E>) -> (messages: Result<Vec<SearchResult>, VaultError<E>>)
    ensures
        outcome(messages) == messages_in(reply.deep_view()),
{
    let mut messages: Vec<SearchResult> = Vec::new();
    let ghost model = reply.deep_view();
    let mut i: usize = 0;
    while i < reply.rows.len()
        invariant
            i <= reply.rows@.len(),
            model == reply.deep_view(),
            messages@.len() == i,
            forall|k: int|
                0 <= k < i ==> message_in(#[trigger] model.rows[k]) == Some(
                    messages@[k].deep_view(),
                ),
        decreases reply.rows@.len() - i,
    {
        match read_message(&reply.rows[i]) {
            Some(message) => messages.push(message),
            None => {
                assert(message_in(model.rows[i as int]) is None);
                return Err(VaultError::MalformedRow);
            },
        }
        i += 1;
    }
    match reply.failure {
        Some(cause) => Err(VaultError::Database { cause }),
        None => {
            assert(messages.deep_view() =~= messages_in(model)->Ok_0);
            Ok(messages)
        },
    }
}

/// Waiting for the messages that were asked for.
pub struct FetchMessages;

impl DeepView for FetchMessages {
    type V = ();

    open spec fn deep_view(&self) -> () {
        ()
    }
}

impl<E> Task<E> for FetchMessages {
    type Output = Vec<SearchResult>;

    open spec fn after(state: (), reply: ReplyModel<E>) -> StepModel<
        (),
        Seq<SearchResultModel>,
        E,
    > {
        StepModel::finish(messages_in(reply))
    }

    fn resume(self, reply: Reply<E>) -> (step: Step<Self, Vec<SearchResult>, E>) {
        finish(read_messages(reply))
    }
}

/// The conditions of a search.
pub open spec fn search_conditions(
    query: Seq<char>,
    project_name: Option<Seq<char>>,
    role: Option<Seq<char>>,
    since: Option<Seq<char>>,
    until: Option<Seq<char>>,
) -> Seq<ConditionModel> {
    when_given("messages_fts MATCH ?"@, Some(escaped_query(query))) + when_given(
        "s.project LIKE ?"@,
        match project_name {
            Some(name) => Some(project_filter(name)),
            None => None,
        },
    ) + when_given("m.role = ?"@, role) + when_given("m.timestamp >= ?"@, since) + when_given(
        "m.timestamp <= ?"@,
        until,
    )
}

/// The request of a search.
pub open spec fn search_request(
    query: Seq<char>,
    limit: usize,
    project_name: Option<Seq<char>>,
    role: Option<Seq<char>>,
    since: Option<Seq<char>>,
    until: Option<Seq<char>>,
) -> RequestModel {
    RequestModel::FetchAll {
        statement: limited_query(
            SELECT_MATCHES@,
            search_conditions(query, project_name, role, since, until),
            " ORDER BY rank"@,
            limit,
        ),
        columns: message_columns(),
    }
}

/// The first step of a search.
pub open spec fn searching<E>(
    query: Seq<char>,
    limit: usize,
    project_name: Option<Seq<char>>,
    role: Option<Seq<char>>,
    since: Option<Seq<char>>,
    until: Option<Seq<char>>,
) -> StepModel<(), Seq<SearchResultModel>, E> {
    if escaped_query(query).len() == 0 {
        StepModel::finish(Ok(seq![]))
    } else {
        StepModel::ask((), search_request(query, limit, project_name, role, since, until))
    }
}

/// Finds the messages that match `query` and meet the filters, the best first, at
/// most `limit` of them. A query of white space alone finds nothing, and nothing is
/// asked for.
pub fn search<E>(
    query: &str,
    limit: usize,
    project_filter: Option<&str>,
    role_filter: Option<&str>,
    since: Option<&str>,
    until: Option<&str>,
) -> (step: Step<FetchMessages, Vec<SearchResult>, E>)
    ensures
        step.deep_view() == searching::<E>(
            query@,
            limit,
            project_filter.deep_view(),
            role_filter.deep_view(),
            since.deep_view(),
            until.deep_view(),
        ),
{
    let escaped = escape_fts_query(query);
    if escaped.as_str().is_empty() {
        let none: Vec<SearchResult> = Vec::new();
        assert(none.deep_view() =~= seq![]);
        return finish(Ok(none));
    }
    let mut conditions: Vec<Condition> = Vec::new();
    assert(conditions.deep_view() =~= seq![]);
    push_when_given(&mut conditions, "messages_fts MATCH ?", Some(escaped.as_str()));
    match project_filter {
        Some(filter) => {
            let pattern = normalize_project_filter(filter);
            push_when_given(&mut conditions, "s.project LIKE ?", Some(pattern.as_str()));
        },
        None => push_when_given(&mut conditions, "s.project LIKE ?", None),
    }
    push_when_given(&mut conditions, "m.role = ?", role_filter);
    push_when_given(&mut conditions, "m.timestamp >= ?", since);
    push_when_given(&mut conditions, "m.timestamp <= ?", until);
    assert(conditions.deep_view() =~= search_conditions(
        query@,
        project_filter.deep_view(),
        role_filter.deep_view(),
        since.deep_view(),
        until.deep_view(),
    ));
    let statement = build_limited_query(SELECT_MATCHES, conditions, " ORDER BY rank", limit);
    ask(FetchMessages, Request::FetchAll { statement, columns: columns_of_message() })
}

/// The request for the messages of a session.
pub open spec fn messages_request(session_id: Seq<char>) -> RequestModel {
    RequestModel::FetchAll {
        statement: StatementModel {
            sql: SELECT_SESSION_MESSAGES@,
            params: seq![ValueModel::Text(session_id)],
        },
        columns: message_columns(),
    }
}

/// The first step of reading the messages of a session.
pub open spec fn reading<E>(session_id: Seq<char>) -> StepModel<(), Seq<SearchResultModel>, E> {
    StepModel::ask((), messages_request(session_id))
}

/// Reads the messages of the session `session_id`, in the order in which they were
/// stored.
pub fn get_session_messages<E>(session_id: &str) -> (step: Step<
    FetchMessages,
    Vec<SearchResult>,
    E,
>)
    ensures
        step.deep_view() == reading::<E>(session_id@),
{
    let params: Vec<Value> = vec![text_value(session_id)];
    assert(params.deep_view() =~= seq![ValueModel::Text(session_id@)]);
    let statement = Statement { sql: SELECT_SESSION_MESSAGES.to_string(), params };
    ask(FetchMessages, Request::FetchAll { statement, columns: columns_of_message() })
}

/// A message reads back as it was stored: a row with the project that was bound for
/// its session and the values that were bound for the message itself, in the order in
/// which the columns are selected, is read as that message.
pub proof fn law_stored_messages_read_back(
    session_id: Seq<char>,
    project_name: Seq<char>,
    started_at: Option<Seq<char>>,
    uuid: Option<Seq<char>>,
    role: Seq<char>,
    content: Seq<char>,
    timestamp: Option<Seq<char>>,
)
    ensures
        ({
            let session = session_values(session_id, project_name, started_at);
            let message = message_values(session_id, uuid, role, content, timestamp);
            message_in(seq![message[0], session[1], message[2], message[3], message[4]]) == Some(
                SearchResultModel { session_id, project: project_name, role, content, timestamp },
            )
        }),
{
}

} // verus!
