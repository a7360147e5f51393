//! Writing sessions and messages, counting them and deleting them.
use vstd::prelude::*;
use crate::error::ErrorModel;
use crate::task::{
    ask, asked, count_of, finish, first_integer, is_query, lemma_only_queries, lemma_run_at,
    optional_text_value, optional_value, query_integer, run, succeeded, text_value, Column,
    NextModel, Reply, ReplyModel, Request, RequestModel, Statement, StatementModel, Step, StepModel,
    Task, Value, ValueModel,
};

verus! {

/// Stores a session, or updates it: the project is replaced, and the start where
/// one is given.
pub const UPSERT_SESSION: &'static str = "INSERT INTO sessions (session_id, project, started_at)
     VALUES (?1, ?2, ?3)
     ON CONFLICT(session_id) DO UPDATE SET
        project = excluded.project,
        started_at = COALESCE(excluded.started_at, sessions.started_at)";

/// Stores a message unless its identifier is taken: the unique index makes the
/// statement skip duplicates by itself, without a look-up first.
pub const INSERT_MESSAGE: &'static str =
    "INSERT OR IGNORE INTO messages (session_id, uuid, role, content, timestamp)
     VALUES (?1, ?2, ?3, ?4, ?5)";

pub const COUNT_SESSIONS: &'static str = "SELECT COUNT(*) FROM sessions";

pub const COUNT_MESSAGES: &'static str = "SELECT COUNT(*) FROM messages";

pub const DELETE_MESSAGES: &'static str = "DELETE FROM messages WHERE session_id = ?1";

pub const DELETE_SESSION: &'static str = "DELETE FROM sessions WHERE session_id = ?1";

/// The request to run `sql` with `params`.
pub open spec fn execute(sql: Seq<char>, params: Seq<ValueModel>) -> RequestModel {
    RequestModel::Execute { statement: StatementModel { sql, params } }
}

/// The request for the count that `sql` gives.
pub open spec fn fetch_count(sql: Seq<char>) -> RequestModel {
    RequestModel::FetchFirst {
        statement: StatementModel { sql, params: seq![] },
        columns: seq![Column::Integer],
    }
}

/// Asks for the count that `sql` gives.
pub fn count_request(sql: &str) -> (request: Request)
    ensures
        request.deep_view() == fetch_count(sql@),
{
    let params: Vec<Value> = Vec::new();
    let columns: Vec<Column> = vec![Column::Integer];
    assert(params.deep_view() =~= seq![]);
    assert(columns.deep_view() =~= seq![Column::Integer]);
    Request::FetchFirst { statement: Statement { sql: sql.to_string(), params }, columns }
}

/// The values that are bound to store a session.
pub open spec fn session_values(
    session_id: Seq<char>,
    project: Seq<char>,
    started_at: Option<Seq<char>>,
) -> Seq<ValueModel> {
    seq![
        ValueModel::Text(session_id),
        ValueModel::Text(project),
        optional_value(started_at),
    ]
}

/// The values that are bound to store a message.
pub open spec fn message_values(
    session_id: Seq<char>,
    uuid: Option<Seq<char>>,
    role: Seq<char>,
    content: Seq<char>,
    timestamp: Option<Seq<char>>,
) -> Seq<ValueModel> {
    seq![
        ValueModel::Text(session_id),
        optional_value(uuid),
        ValueModel::Text(role),
        ValueModel::Text(content),
        optional_value(timestamp),
    ]
}

/// Storing a session, waiting for the statement to run.
pub struct UpsertSession;

impl DeepView for UpsertSession {
    type V = ();

    open spec fn deep_view(&self) -> () {
        ()
    }
}

/// The request to store a session.
pub open spec fn upsert_request(
    session_id: Seq<char>,
    project: Seq<char>,
    started_at: Option<Seq<char>>,
) -> RequestModel {
    execute(UPSERT_SESSION@, session_values(session_id, project, started_at))
}

/// The first step of storing a session.
pub open spec fn storing_session<E>(
    session_id: Seq<char>,
    project: Seq<char>,
    started_at: Option<Seq<char>>,
) -> StepModel<(), (), E> {
    StepModel::ask((), upsert_request(session_id, project, started_at))
}

/// Stores the session `session_id` of `project`, or updates it.
pub fn upsert_session<E>(session_id: &str, project: &str, started_at: Option<&str>) -> (step: Step<
    UpsertSession,
    (),
    E,
>)
    ensures
        step.deep_view() == storing_session::<E>(session_id@, project@, started_at.deep_view()),
{
    let params: Vec<Value> = vec![
        text_value(session_id),
        text_value(project),
        optional_text_value(started_at),
    ];
    assert(params.deep_view() =~= session_values(session_id@, project@, started_at.deep_view()));
    let statement = Statement { sql: UPSERT_SESSION.to_string(), params };
    ask(UpsertSession, Request::Execute { statement })
}

impl<E> Task<E> for UpsertSession {
    type Output = ();

    open spec fn after(state: (), reply: ReplyModel<E>) -> StepModel<(), (), E> {
        StepModel::finish(
            match succeeded(reply) {
                Ok(_) => Ok(()),
                Err(error) => Err(error),
            },
        )
    }

    fn resume(self, reply: Reply<E>) -> (step: Step<Self, (), E>) {
        finish(
            match count_of(reply) {
                Ok(_) => Ok(()),
                Err(error) => Err(error),
            },
        )
    }
}

/// Storing a message, waiting for the statement to run.
pub struct InsertMessage;

impl DeepView for InsertMessage {
    type V = ();

    open spec fn deep_view(&self) -> () {
        ()
    }
}

/// The request to store a message.
pub open spec fn insert_request(
    session_id: Seq<char>,
    uuid: Option<Seq<char>>,
    role: Seq<char>,
    content: Seq<char>,
    timestamp: Option<Seq<char>>,
) -> RequestModel {
    execute(INSERT_MESSAGE@, message_values(session_id, uuid, role, content, timestamp))
}

/// The first step of storing a message.
pub open spec fn storing_message<E>(
    session_id: Seq<char>,
    uuid: Option<Seq<char>>,
    role: Seq<char>,
    content: Seq<char>,
    timestamp: Option<Seq<char>>,
) -> StepModel<(), bool, E> {
    StepModel::ask((), insert_request(session_id, uuid, role, content, timestamp))
}

/// Stores a message of the session `session_id`, unless one with the same `uuid`
/// is stored already. The result says whether it was stored.
pub fn insert_message<E>(
    session_id: &str,
    uuid: Option<&str>,
    role: &str,
    content: &str,
    timestamp: Option<&str>,
) -> (step: Step<InsertMessage, bool, E>)
    ensures
        step.deep_view() == storing_message::<E>(
            session_id@,
            uuid.deep_view(),
            role@,
            content@,
            timestamp.deep_view(),
        ),
{
    let params: Vec<Value> = vec![
        text_value(session_id),
        optional_text_value(uuid),
        text_value(role),
        text_value(content),
        optional_text_value(timestamp),
    ];
    assert(params.deep_view() =~= message_values(
        session_id@,
        uuid.deep_view(),
        role@,
        content@,
        timestamp.deep_view(),
    ));
    let statement = Statement { sql: INSERT_MESSAGE.to_string(), params };
    ask(InsertMessage, Request::Execute { statement })
}

impl<E> Task<E> for InsertMessage {
    type Output = bool;

    open spec fn after(state: (), reply: ReplyModel<E>) -> StepModel<(), bool, E> {
        StepModel::finish(
            match succeeded(reply) {
                Ok(count) => Ok(count > 0),
                Err(error) => Err(error),
            },
        )
    }

    fn resume(self, reply: Reply<E>) -> (step: Step<Self, bool, E>) {
        finish(
            match count_of(reply) {
                Ok(count) => Ok(count > 0),
                Err(error) => Err(error),
            },
        )
    }
}

/// Counting, waiting for the number of sessions (`None`) or, with that number at
/// hand, for the number of messages.
pub struct Stats {
    sessions: Option<i64>,
}

impl DeepView for Stats {
    type V = Option<i64>;

    closed spec fn deep_view(&self) -> Option<i64> {
        self.sessions
    }
}

/// The first step of counting.
pub open spec fn counting<E>() -> StepModel<Option<i64>, (i64, i64), E> {
    StepModel::ask(None, fetch_count(COUNT_SESSIONS@))
}

/// Counts the sessions and the messages.
pub fn stats<E>() -> (step: Step<Stats, (i64, i64), E>)
    ensures
        step.deep_view() == counting::<E>(),
{
    ask(Stats { sessions: None }, count_request(COUNT_SESSIONS))
}

impl<E> Task<E> for Stats {
    type Output = (i64, i64);

    open spec fn after(state: Option<i64>, reply: ReplyModel<E>) -> StepModel<
        Option<i64>,
        (i64, i64),
        E,
    > {
        match (first_integer(reply), state) {
            (Ok(sessions), None) => StepModel::ask(Some(sessions), fetch_count(COUNT_MESSAGES@)),
            (Ok(messages), Some(sessions)) => StepModel::finish(Ok((sessions, messages))),
            (Err(error), _) => StepModel::finish(Err(error)),
        }
    }

    fn resume(self, reply: Reply<E>) -> (step: Step<Self, (i64, i64), E>) {
        match (query_integer(reply), self.sessions) {
            (Ok(sessions), None) => ask(
                Stats { sessions: Some(sessions) },
                count_request(COUNT_MESSAGES),
            ),
            (Ok(messages), Some(sessions)) => finish(Ok((sessions, messages))),
            (Err(error), _) => finish(Err(error)),
        }
    }
}

/// The state of a deletion.
#[verifier::ext_equal]
pub enum DeleteModel {
    /// Waiting for the messages of the session to be deleted.
    Messages { session_id: Seq<char> },
    /// The messages are gone, `deleted` of them; waiting for the session itself.
    Session { deleted: u64 },
}

/// Deleting a session.
pub enum DeleteSession {
    Messages { session_id: String },
    Session { deleted: u64 },
}

impl DeepView for DeleteSession {
    type V = DeleteModel;

    open spec fn deep_view(&self) -> DeleteModel {
        match self {
            DeleteSession::Messages { session_id } => DeleteModel::Messages {
                session_id: session_id@,
            },
            DeleteSession::Session { deleted } => DeleteModel::Session { deleted: *deleted },
        }
    }
}

/// Runs `sql` on the session `session_id`.
fn execute_on_session(sql: &str, session_id: &str) -> (request: Request)
    ensures
        request.deep_view() == execute(sql@, seq![ValueModel::Text(session_id@)]),
{
    let params: Vec<Value> = vec![text_value(session_id)];
    assert(params.deep_view() =~= seq![ValueModel::Text(session_id@)]);
    Request::Execute { statement: Statement { sql: sql.to_string(), params } }
}

/// The request to delete the messages of a session.
pub open spec fn delete_messages_request(session_id: Seq<char>) -> RequestModel {
    execute(DELETE_MESSAGES@, seq![ValueModel::Text(session_id)])
}

/// The request to delete a session.
pub open spec fn delete_session_request(session_id: Seq<char>) -> RequestModel {
    execute(DELETE_SESSION@, seq![ValueModel::Text(session_id)])
}

/// The first step of deleting the session `session_id`.
pub open spec fn deleting<E>(session_id: Seq<char>) -> StepModel<DeleteModel, u64, E> {
    StepModel::ask(
        DeleteModel::Messages { session_id },
        delete_messages_request(session_id),
    )
}

/// Deletes the session `session_id` and its messages. The result is the number
/// of messages.
pub fn delete_session<E>(session_id: &str) -> (step: Step<DeleteSession, u64, E>)
    ensures
        step.deep_view() == deleting::<E>(session_id@),
{
    ask(
        DeleteSession::Messages { session_id: session_id.to_string() },
        execute_on_session(DELETE_MESSAGES, session_id),
    )
}

impl<E> Task<E> for DeleteSession {
    type Output = u64;

    open spec fn after(state: DeleteModel, reply: ReplyModel<E>) -> StepModel<DeleteModel, u64, E> {
        match (succeeded(reply), state) {
            (Ok(deleted), DeleteModel::Messages { session_id }) => StepModel::ask(
                DeleteModel::Session { deleted },
                delete_session_request(session_id),
            ),
            (Ok(_), DeleteModel::Session { deleted }) => StepModel::finish(Ok(deleted)),
            (Err(error), _) => StepModel::finish(Err(error)),
        }
    }

    fn resume(self, reply: Reply<E>) -> (step: Step<Self, u64, E>) {
        match (count_of(reply), self) {
            (Ok(deleted), DeleteSession::Messages { session_id }) => ask(
                DeleteSession::Session { deleted },
                execute_on_session(DELETE_SESSION, session_id.as_str()),
            ),
            (Ok(_), DeleteSession::Session { deleted }) => finish(Ok(deleted)),
            (Err(error), _) => finish(Err(error)),
        }
    }
}

/// Storing a message tells whether it was stored: a statement that changes no row has
/// met a message with the same identifier.
pub proof fn law_skipped_messages_are_told<E>(reply: ReplyModel<E>)
    requires
        reply.failure is None,
    ensures
        <InsertMessage as Task<E>>::after((), reply) == StepModel::<(), bool, E>::finish(
            Ok(reply.count != 0),
        ),
{
}

/// The two counts are given back in the order in which they were asked for.
pub proof fn law_counts_are_given_back<E>(
    sessions: i64,
    messages: i64,
    replies: Seq<ReplyModel<E>>,
)
    requires
        replies.len() == 2,
        first_integer(replies[0]) == Ok::<i64, ErrorModel<E>>(sessions),
        first_integer(replies[1]) == Ok::<i64, ErrorModel<E>>(messages),
    ensures
        asked::<Stats, E>(counting::<E>(), replies) == seq![
            fetch_count(COUNT_SESSIONS@),
            fetch_count(COUNT_MESSAGES@),
        ],
        run::<Stats, E>(counting::<E>(), replies) == StepModel::<
            Option<i64>,
            (i64, i64),
            E,
        >::finish(Ok((sessions, messages))),
{
    let start = counting::<E>();
    let second = <Stats as Task<E>>::after(None, replies[0]);
    lemma_run_at::<Stats, E>(start, replies, 0);
    lemma_run_at::<Stats, E>(second, replies, 1);
    assert(replies.skip(0) =~= replies);
    assert(asked::<Stats, E>(start, replies) =~= seq![
        fetch_count(COUNT_SESSIONS@),
        fetch_count(COUNT_MESSAGES@),
    ]);
}

/// A session is deleted after its messages, so that no message is left without a
/// session, and the result is the number of these messages.
pub proof fn law_messages_go_before_their_session<E>(
    session_id: Seq<char>,
    replies: Seq<ReplyModel<E>>,
)
    requires
        replies.len() == 2,
        replies[0].failure is None,
        replies[1].failure is None,
    ensures
        asked::<DeleteSession, E>(deleting::<E>(session_id), replies) == seq![
            delete_messages_request(session_id),
            delete_session_request(session_id),
        ],
        run::<DeleteSession, E>(deleting::<E>(session_id), replies) == StepModel::<
            DeleteModel,
            u64,
            E,
        >::finish(Ok(replies[0].count)),
{
    let start = deleting::<E>(session_id);
    let second = <DeleteSession as Task<E>>::after(start.next->Ask_0, replies[0]);
    lemma_run_at::<DeleteSession, E>(start, replies, 0);
    lemma_run_at::<DeleteSession, E>(second, replies, 1);
    assert(replies.skip(0) =~= replies);
    assert(asked::<DeleteSession, E>(start, replies) =~= seq![
        delete_messages_request(session_id),
        delete_session_request(session_id),
    ]);
}

/// A session whose messages could not be deleted is left alone.
pub proof fn law_failed_deletion_keeps_the_session<E>(
    session_id: Seq<char>,
    replies: Seq<ReplyModel<E>>,
)
    requires
        replies.len() > 0,
        replies[0].failure is Some,
    ensures
        asked::<DeleteSession, E>(deleting::<E>(session_id), replies) == seq![
            delete_messages_request(session_id),
        ],
        run::<DeleteSession, E>(deleting::<E>(session_id), replies).next == NextModel::<
            DeleteModel,
            u64,
            E,
        >::Failed(ErrorModel::Database { cause: replies[0].failure->0 }),
{
    let start = deleting::<E>(session_id);
    lemma_run_at::<DeleteSession, E>(start, replies, 0);
    assert(replies.skip(0) =~= replies);
    assert(asked::<DeleteSession, E>(start, replies) =~= seq![
        delete_messages_request(session_id),
    ]);
}

/// Counting changes nothing: it only reads rows, however its requests are answered.
pub proof fn law_counting_only_reads<E>(replies: Seq<ReplyModel<E>>)
    ensures
        forall|i: int|
            0 <= i < asked::<Stats, E>(counting::<E>(), replies).len() ==> is_query(
                #[trigger] asked::<Stats, E>(counting::<E>(), replies)[i],
            ),
{
    lemma_only_queries::<Stats, E>(counting::<E>(), replies);
}

} // verus!
