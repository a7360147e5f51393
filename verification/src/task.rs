//! What the archive asks of its database, and what it makes of the answers.
//!
//! An operation on the archive is a [`Task`]: it asks for one thing at a time and
//! is resumed with the reply, until it is done or has failed. Whoever runs it talks
//! to the database; every decision is made here.
use vstd::prelude::*;
use crate::error::{ErrorModel, VaultError};

verus! {

/// A value bound to a statement or read from a row.
#[derive(Debug, PartialEq, Eq)]
pub enum Value {
    Null,
    Integer(i64),
    Text(String),
}

/// The model of a [`Value`].
#[verifier::ext_equal]
pub enum ValueModel {
    Null,
    Integer(i64),
    Text(Seq<char>),
}

impl DeepView for Value {
    type V = ValueModel;

    open spec fn deep_view(&self) -> ValueModel {
        match self {
            Value::Null => ValueModel::Null,
            Value::Integer(n) => ValueModel::Integer(*n),
            Value::Text(text) => ValueModel::Text(text@),
        }
    }
}

/// The type that a column of a result is read as.
#[derive(Clone, Copy, PartialEq, Eq, Debug, Structural)]
pub enum Column {
    /// A text; a null is a failure.
    Text,
    /// A text or a null.
    OptionalText,
    /// An integer; a null is a failure.
    Integer,
}

impl DeepView for Column {
    type V = Column;

    open spec fn deep_view(&self) -> Column {
        *self
    }
}

/// A statement with the values of its parameters `?1`, `?2` and so on.
#[derive(Debug, PartialEq, Eq)]
pub struct Statement {
    pub sql: String,
    pub params: Vec<Value>,
}

/// The model of a [`Statement`].
#[verifier::ext_equal]
pub struct StatementModel {
    pub sql: Seq<char>,
    pub params: Seq<ValueModel>,
}

impl DeepView for Statement {
    type V = StatementModel;

    open spec fn deep_view(&self) -> StatementModel {
        StatementModel { sql: self.sql@, params: self.params.deep_view() }
    }
}

/// What a task asks for.
#[derive(Debug, PartialEq, Eq)]
pub enum Request {
    /// Open the database file as a plain local one.
    OpenLocal,
    /// Open the database file as a replica of the database at `url`.
    OpenSynced { url: String, auth_token: String },
    /// Connect to the database that was opened.
    Connect,
    /// Pull the latest state from the sync server; the reply counts the frames.
    Sync,
    /// Run statements without parameters.
    Batch { sql: String },
    /// Run a statement; the reply counts the rows it changed.
    Execute { statement: Statement },
    /// Run a query and read its rows.
    FetchAll { statement: Statement, columns: Vec<Column> },
    /// Run a query and read its first row, if it has one.
    FetchFirst { statement: Statement, columns: Vec<Column> },
}

/// The model of a [`Request`].
#[verifier::ext_equal]
pub enum RequestModel {
    OpenLocal,
    OpenSynced { url: Seq<char>, auth_token: Seq<char> },
    Connect,
    Sync,
    Batch { sql: Seq<char> },
    Execute { statement: StatementModel },
    FetchAll { statement: StatementModel, columns: Seq<Column> },
    FetchFirst { statement: StatementModel, columns: Seq<Column> },
}

impl DeepView for Request {
    type V = RequestModel;

    open spec fn deep_view(&self) -> RequestModel {
        match self {
            Request::OpenLocal => RequestModel::OpenLocal,
            Request::OpenSynced { url, auth_token } => RequestModel::OpenSynced {
                url: url@,
                auth_token: auth_token@,
            },
            Request::Connect => RequestModel::Connect,
            Request::Sync => RequestModel::Sync,
            Request::Batch { sql } => RequestModel::Batch { sql: sql@ },
            Request::Execute { statement } => RequestModel::Execute {
                statement: statement.deep_view(),
            },
            Request::FetchAll { statement, columns } => RequestModel::FetchAll {
                statement: statement.deep_view(),
                columns: columns.deep_view(),
            },
            Request::FetchFirst { statement, columns } => RequestModel::FetchFirst {
                statement: statement.deep_view(),
                columns: columns.deep_view(),
            },
        }
    }
}

/// The answer to a request.
#[derive(Debug, PartialEq, Eq)]
pub struct Reply<E> {
    /// The number of rows changed or of frames applied.
    pub count: u64,
    /// The rows that were read, each by the columns that the request names.
    pub rows: Vec<Vec<Value>>,
    /// What went wrong, if anything, after `rows` were read.
    pub failure: Option<E>,
}

/// The model of a [`Reply`].
#[verifier::ext_equal]
pub struct ReplyModel<E> {
    pub count: u64,
    pub rows: Seq<Seq<ValueModel>>,
    pub failure: Option<E>,
}

impl<E> DeepView for Reply<E> {
    type V = ReplyModel<E>;

    open spec fn deep_view(&self) -> ReplyModel<E> {
        ReplyModel { count: self.count, rows: self.rows.deep_view(), failure: self.failure }
    }
}

/// A line of output.
#[derive(Debug, PartialEq, Eq)]
pub enum Line<E> {
    /// A line for the standard output.
    Output(String),
    /// A line for the standard error.
    Notice(String),
    /// A line for the standard error: the text, then the whole chain of causes.
    Warning(String, E),
}

/// The model of a [`Line`].
#[verifier::ext_equal]
pub enum LineModel<E> {
    Output(Seq<char>),
    Notice(Seq<char>),
    Warning(Seq<char>, E),
}

impl<E> DeepView for Line<E> {
    type V = LineModel<E>;

    open spec fn deep_view(&self) -> LineModel<E> {
        match self {
            Line::Output(text) => LineModel::Output(text@),
            Line::Notice(text) => LineModel::Notice(text@),
            Line::Warning(text, cause) => LineModel::Warning(text@, *cause),
        }
    }
}

/// How a task goes on.
pub enum Next<S, T, E> {
    /// It asks for something and is to be resumed with the reply.
    Ask(S, Request),
    /// It is done, with its result.
    Done(T),
    /// It has failed.
    Failed(VaultError<E>),
}

/// The model of a [`Next`].
#[verifier::ext_equal]
pub enum NextModel<S, T, E> {
    Ask(S, RequestModel),
    Done(T),
    Failed(ErrorModel<E>),
}

impl<S: DeepView, T: DeepView, E> DeepView for Next<S, T, E> {
    type V = NextModel<S::V, T::V, E>;

    open spec fn deep_view(&self) -> NextModel<S::V, T::V, E> {
        match self {
            Next::Ask(state, request) => NextModel::Ask(state.deep_view(), request.deep_view()),
            Next::Done(value) => NextModel::Done(value.deep_view()),
            Next::Failed(error) => NextModel::Failed(error.deep_view()),
        }
    }
}

/// One step of a task: the lines that it prints, and then how it goes on.
pub struct Step<S, T, E> {
    pub lines: Vec<Line<E>>,
    pub next: Next<S, T, E>,
}

/// The model of a [`Step`].
#[verifier::ext_equal]
pub struct StepModel<S, T, E> {
    pub lines: Seq<LineModel<E>>,
    pub next: NextModel<S, T, E>,
}

impl<S: DeepView, T: DeepView, E> DeepView for Step<S, T, E> {
    type V = StepModel<S::V, T::V, E>;

    open spec fn deep_view(&self) -> StepModel<S::V, T::V, E> {
        StepModel { lines: self.lines.deep_view(), next: self.next.deep_view() }
    }
}

impl<S, T, E> StepModel<S, T, E> {
    /// The step that prints nothing and asks for `request`.
    pub open spec fn ask(state: S, request: RequestModel) -> Self {
        StepModel { lines: seq![], next: NextModel::Ask(state, request) }
    }

    /// The step that prints nothing and ends the task with `outcome`.
    pub open spec fn finish(outcome: Result<T, ErrorModel<E>>) -> Self {
        StepModel {
            lines: seq![],
            next: match outcome {
                Ok(value) => NextModel::Done(value),
                Err(error) => NextModel::Failed(error),
            },
        }
    }
}

/// The model of a result.
pub open spec fn outcome<T: DeepView, E>(result: Result<T, VaultError<E>>) -> Result<
    T::V,
    ErrorModel<E>,
> {
    match result {
        Ok(value) => Ok(value.deep_view()),
        Err(error) => Err(error.deep_view()),
    }
}

/// An operation on the archive that is waiting for a reply.
pub trait Task<E>: Sized + DeepView {
    /// What the operation gives back.
    type Output: DeepView;

    /// The step that follows on `reply` in the state `state`.
    spec fn after(state: <Self as DeepView>::V, reply: ReplyModel<E>) -> StepModel<
        <Self as DeepView>::V,
        <<Self as Task<E>>::Output as DeepView>::V,
        E,
    >;

    /// Goes on with the reply to what the task asked for.
    fn resume(self, reply: Reply<E>) -> (step: Step<Self, Self::Output, E>)
        ensures
            step.deep_view() == Self::after(self.deep_view(), reply.deep_view()),
    ;
}

/// The step that a task has reached when its requests have been answered by
/// `replies`, one after the other, as far as it asks for any.
pub open spec fn run<T: Task<E>, E>(
    step: StepModel<T::V, <T::Output as DeepView>::V, E>,
    replies: Seq<ReplyModel<E>>,
) -> StepModel<T::V, <T::Output as DeepView>::V, E>
    decreases replies.len(),
{
    match step.next {
        NextModel::Ask(state, _) if replies.len() > 0 => run::<T, E>(
            T::after(state, replies.first()),
            replies.drop_first(),
        ),
        _ => step,
    }
}

/// The requests that a task makes while its requests are answered by `replies`,
/// one after the other, the last one unanswered if it asks for more.
pub open spec fn asked<T: Task<E>, E>(
    step: StepModel<T::V, <T::Output as DeepView>::V, E>,
    replies: Seq<ReplyModel<E>>,
) -> Seq<RequestModel>
    decreases replies.len(),
{
    match step.next {
        NextModel::Ask(state, request) => if replies.len() > 0 {
            seq![request] + asked::<T, E>(
                T::after(state, replies.first()),
                replies.drop_first(),
            )
        } else {
            seq![request]
        },
        _ => seq![],
    }
}

/// The lines that a task prints while its requests are answered by `replies`, one after
/// the other.
pub open spec fn printed<T: Task<E>, E>(
    step: StepModel<T::V, <T::Output as DeepView>::V, E>,
    replies: Seq<ReplyModel<E>>,
) -> Seq<LineModel<E>>
    decreases replies.len(),
{
    match step.next {
        NextModel::Ask(state, _) if replies.len() > 0 => step.lines + printed::<T, E>(
            T::after(state, replies.first()),
            replies.drop_first(),
        ),
        _ => step.lines,
    }
}

/// A task that asks for something goes on with the first of the replies that are
/// left.
pub proof fn lemma_run_at<T: Task<E>, E>(
    step: StepModel<T::V, <T::Output as DeepView>::V, E>,
    replies: Seq<ReplyModel<E>>,
    i: int,
)
    requires
        step.next is Ask,
        0 <= i < replies.len(),
    ensures
        run::<T, E>(step, replies.skip(i)) == run::<T, E>(
            T::after(step.next->Ask_0, replies[i]),
            replies.skip(i + 1),
        ),
        asked::<T, E>(step, replies.skip(i)) == seq![step.next->Ask_1] + asked::<T, E>(
            T::after(step.next->Ask_0, replies[i]),
            replies.skip(i + 1),
        ),
        printed::<T, E>(step, replies.skip(i)) == step.lines + printed::<T, E>(
            T::after(step.next->Ask_0, replies[i]),
            replies.skip(i + 1),
        ),
{
    let rest = replies.skip(i);
    assert(rest.first() == replies[i]);
    assert(rest.drop_first() =~= replies.skip(i + 1));
}

/// A task that asks for something goes on with the first of the replies.
pub proof fn lemma_run_first<T: Task<E>, E>(
    step: StepModel<T::V, <T::Output as DeepView>::V, E>,
    first: ReplyModel<E>,
    rest: Seq<ReplyModel<E>>,
)
    requires
        step.next is Ask,
    ensures
        run::<T, E>(step, seq![first] + rest) == run::<T, E>(
            T::after(step.next->Ask_0, first),
            rest,
        ),
{
    let replies = seq![first] + rest;
    assert(replies.first() == first);
    assert(replies.drop_first() =~= rest);
}

/// Whether a request only reads rows.
pub open spec fn is_query(request: RequestModel) -> bool {
    request is FetchAll || request is FetchFirst
}

/// Whether the step, where it asks for something, only reads rows.
pub open spec fn asks_query<S, T, E>(step: StepModel<S, T, E>) -> bool {
    step.next matches NextModel::Ask(_, request) ==> is_query(request)
}

/// A task whose steps all only read rows asks for nothing else, however its requests are
/// answered.
pub proof fn lemma_only_queries<T: Task<E>, E>(
    step: StepModel<T::V, <T::Output as DeepView>::V, E>,
    replies: Seq<ReplyModel<E>>,
)
    requires
        asks_query(step),
        forall|state: T::V, reply: ReplyModel<E>| asks_query(#[trigger] T::after(state, reply)),
    ensures
        forall|i: int|
            0 <= i < asked::<T, E>(step, replies).len() ==> is_query(
                #[trigger] asked::<T, E>(step, replies)[i],
            ),
    decreases replies.len(),
{
    match step.next {
        NextModel::Ask(state, request) if replies.len() > 0 => {
            let next = T::after(state, replies.first());
            let rest = asked::<T, E>(next, replies.drop_first());
            lemma_only_queries::<T, E>(next, replies.drop_first());
            assert forall|i: int| 0 <= i < asked::<T, E>(step, replies).len() implies is_query(
                #[trigger] asked::<T, E>(step, replies)[i],
            ) by {
                if i > 0 {
                    assert(asked::<T, E>(step, replies)[i] == rest[i - 1]);
                }
            }
        },
        _ => {},
    }
}

/// Prints nothing and asks for `request`.
pub fn ask<S: DeepView, T: DeepView, E>(state: S, request: Request) -> (step: Step<S, T, E>)
    ensures
        step.deep_view() == StepModel::<S::V, T::V, E>::ask(
            state.deep_view(),
            request.deep_view(),
        ),
{
    let lines: Vec<Line<E>> = Vec::new();
    assert(lines.deep_view() =~= seq![]);
    Step { lines, next: Next::Ask(state, request) }
}

/// Prints nothing and ends the task with `result`.
pub fn finish<S: DeepView, T: DeepView, E>(result: Result<T, VaultError<E>>) -> (step: Step<
    S,
    T,
    E,
>)
    ensures
        step.deep_view() == StepModel::<S::V, T::V, E>::finish(outcome(result)),
{
    let lines: Vec<Line<E>> = Vec::new();
    assert(lines.deep_view() =~= seq![]);
    let next = match result {
        Ok(value) => Next::Done(value),
        Err(error) => Next::Failed(error),
    };
    Step { lines, next }
}

/// The value for a text parameter.
pub fn text_value(text: &str) -> (value: Value)
    ensures
        value.deep_view() == ValueModel::Text(text@),
{
    Value::Text(text.to_string())
}

/// The model of the value for an optional text parameter.
pub open spec fn optional_value(text: Option<Seq<char>>) -> ValueModel {
    match text {
        Some(text) => ValueModel::Text(text),
        None => ValueModel::Null,
    }
}

/// The value for an optional text parameter: the text, or null.
pub fn optional_text_value(text: Option<&str>) -> (value: Value)
    ensures
        value.deep_view() == optional_value(text.deep_view()),
{
    match text {
        Some(text) => Value::Text(text.to_string()),
        None => Value::Null,
    }
}

/// The text in column `i` of a row.
pub open spec fn text_at(row: Seq<ValueModel>, i: int) -> Option<Seq<char>> {
    if 0 <= i < row.len() {
        match row[i] {
            ValueModel::Text(text) => Some(text),
            _ => None,
        }
    } else {
        None
    }
}

/// The text or null in column `i` of a row.
pub open spec fn optional_text_at(row: Seq<ValueModel>, i: int) -> Option<Option<Seq<char>>> {
    if 0 <= i < row.len() {
        match row[i] {
            ValueModel::Text(text) => Some(Some(text)),
            ValueModel::Null => Some(None),
            _ => None,
        }
    } else {
        None
    }
}

/// The integer in column `i` of a row.
pub open spec fn integer_at(row: Seq<ValueModel>, i: int) -> Option<i64> {
    if 0 <= i < row.len() {
        match row[i] {
            ValueModel::Integer(n) => Some(n),
            _ => None,
        }
    } else {
        None
    }
}

/// Reads the text in column `i` of a row.
pub fn read_text(row: &Vec<Value>, i: usize) -> (read: Option<String>)
    ensures
        read.deep_view() == text_at(row.deep_view(), i as int),
{
    if i < row.len() {
        match &row[i] {
            Value::Text(text) => Some(text.clone()),
            _ => None,
        }
    } else {
        None
    }
}

/// Reads the text or null in column `i` of a row.
pub fn read_optional_text(row: &Vec<Value>, i: usize) -> (read: Option<Option<String>>)
    ensures
        read.deep_view() == optional_text_at(row.deep_view(), i as int),
{
    if i < row.len() {
        match &row[i] {
            Value::Text(text) => Some(Some(text.clone())),
            Value::Null => Some(None),
            _ => None,
        }
    } else {
        None
    }
}

/// Reads the integer in column `i` of a row.
pub fn read_integer(row: &Vec<Value>, i: usize) -> (read: Option<i64>)
    ensures
        read == integer_at(row.deep_view(), i as int),
{
    if i < row.len() {
        match &row[i] {
            Value::Integer(n) => Some(*n),
            _ => None,
        }
    } else {
        None
    }
}

/// The first row of a reply. It is an error that there is none.
pub open spec fn first_row<E>(reply: ReplyModel<E>) -> Result<Seq<ValueModel>, ErrorModel<E>> {
    if reply.rows.len() > 0 {
        Ok(reply.rows[0])
    } else {
        match reply.failure {
            Some(cause) => Err(ErrorModel::Database { cause }),
            None => Err(ErrorModel::NoRows),
        }
    }
}

/// Takes the first row of a reply, erroring if there is none.
pub fn query_row<E>(reply: Reply<E>) -> (row: Result<Vec<Value>, VaultError<E>>)
    ensures
        outcome(row) == first_row(reply.deep_view()),
{
    let mut rows = reply.rows;
    if rows.len() > 0 {
        let row = rows.swap_remove(0);
        Ok(row)
    } else {
        match reply.failure {
            Some(cause) => Err(VaultError::Database { cause }),
            None => Err(VaultError::NoRows),
        }
    }
}

/// The integer in the first column of the first row of a reply.
pub open spec fn first_integer<E>(reply: ReplyModel<E>) -> Result<i64, ErrorModel<E>> {
    match first_row(reply) {
        Ok(row) => match integer_at(row, 0) {
            Some(n) => Ok(n),
            None => Err(ErrorModel::MalformedRow),
        },
        Err(error) => Err(error),
    }
}

/// Reads the integer in the first column of the first row of a reply.
pub fn query_integer<E>(reply: Reply<E>) -> (n: Result<i64, VaultError<E>>)
    ensures
        outcome(n) == first_integer(reply.deep_view()),
{
    match query_row(reply) {
        Ok(row) => match read_integer(&row, 0) {
            Some(n) => Ok(n),
            None => Err(VaultError::MalformedRow),
        },
        Err(error) => Err(error),
    }
}

/// What a reply to a request without rows says: it succeeded, or it failed.
pub open spec fn succeeded<E>(reply: ReplyModel<E>) -> Result<u64, ErrorModel<E>> {
    match reply.failure {
        Some(cause) => Err(ErrorModel::Database { cause }),
        None => Ok(reply.count),
    }
}

/// Whether a request without rows succeeded, and the count that it gave.
pub fn count_of<E>(reply: Reply<E>) -> (count: Result<u64, VaultError<E>>)
    ensures
        outcome(count) == succeeded(reply.deep_view()),
{
    match reply.failure {
        Some(cause) => Err(VaultError::Database { cause }),
        None => Ok(reply.count),
    }
}

} // verus!
