//! What the models say of the values that callers hand in and get back.
use vstd::prelude::*;
use crate::error::{ErrorModel, VaultError};
use crate::filter::{Condition, ConditionModel};
use crate::messages::{SearchResult, SearchResultModel};
use crate::sessions::{SessionSummary, SummaryModel};
use crate::task::{
    Column, Line, LineModel, Next, NextModel, Reply, Request, RequestModel, Statement, Step, Value,
    ValueModel,
};
use crate::vault::{SyncOptions, SyncOptionsModel};

verus! {

/// The model of a value, a statement or a request holds the same texts, numbers and columns,
/// each in its own place.
pub proof fn law_request_models(
    text: String,
    other: String,
    n: i64,
    params: Vec<Value>,
    columns: Vec<Column>,
    i: int,
)
    ensures
        Value::Text(text).deep_view() == ValueModel::Text(text@),
        Value::Integer(n).deep_view() == ValueModel::Integer(n),
        Value::Null.deep_view() == ValueModel::Null,
        ({
            let statement = Statement { sql: text, params };
            let model = statement.deep_view();
            &&& model.sql == text@
            &&& model.params.len() == params@.len()
            &&& 0 <= i < params@.len() ==> model.params[i] == params@[i].deep_view()
            &&& (Request::Execute { statement }).deep_view() == (RequestModel::Execute {
                statement: model,
            })
            &&& (Request::FetchAll { statement, columns }).deep_view() == (RequestModel::FetchAll {
                statement: model,
                columns: columns@,
            })
            &&& (Request::FetchFirst { statement, columns }).deep_view() == (
            RequestModel::FetchFirst { statement: model, columns: columns@ })
        }),
        Request::OpenLocal.deep_view() == RequestModel::OpenLocal,
        Request::Connect.deep_view() == RequestModel::Connect,
        Request::Sync.deep_view() == RequestModel::Sync,
        (Request::Batch { sql: text }).deep_view() == (RequestModel::Batch { sql: text@ }),
        (Request::OpenSynced { url: text, auth_token: other }).deep_view() == (
        RequestModel::OpenSynced { url: text@, auth_token: other@ }),
{
    assert(columns.deep_view() =~= columns@);
}

/// The model of a reply holds the same count, rows and failure.
pub proof fn law_reply_model<E>(reply: Reply<E>, i: int, j: int)
    ensures
        reply.deep_view().count == reply.count,
        reply.deep_view().failure == reply.failure,
        reply.deep_view().rows.len() == reply.rows@.len(),
        0 <= i < reply.rows@.len() ==> reply.deep_view().rows[i].len() == reply.rows@[i]@.len(),
        0 <= i < reply.rows@.len() && 0 <= j < reply.rows@[i]@.len()
            ==> reply.deep_view().rows[i][j] == reply.rows@[i]@[j].deep_view(),
{
}

/// The model of a step holds the same lines, in their order, and goes on in the same way.
pub proof fn law_step_model<S: DeepView, T: DeepView, E>(
    step: Step<S, T, E>,
    state: S,
    request: Request,
    value: T,
    error: VaultError<E>,
    text: String,
    cause: E,
    i: int,
)
    ensures
        step.deep_view().next == step.next.deep_view(),
        step.deep_view().lines.len() == step.lines@.len(),
        0 <= i < step.lines@.len() ==> step.deep_view().lines[i] == step.lines@[i].deep_view(),
        Next::<S, T, E>::Ask(state, request).deep_view() == NextModel::<S::V, T::V, E>::Ask(
            state.deep_view(),
            request.deep_view(),
        ),
        Next::<S, T, E>::Done(value).deep_view() == NextModel::<S::V, T::V, E>::Done(
            value.deep_view(),
        ),
        Next::<S, T, E>::Failed(error).deep_view() == NextModel::<S::V, T::V, E>::Failed(
            error.deep_view(),
        ),
        Line::<E>::Output(text).deep_view() == LineModel::<E>::Output(text@),
        Line::<E>::Notice(text).deep_view() == LineModel::<E>::Notice(text@),
        Line::<E>::Warning(text, cause).deep_view() == LineModel::<E>::Warning(text@, cause),
{
}

/// The model of a message or a session holds the same texts and numbers, each in its own
/// place.
pub proof fn law_result_models(
    message: SearchResult,
    session: SessionSummary,
    options: SyncOptions,
    condition: Condition,
)
    ensures
        message.deep_view() == (SearchResultModel {
            session_id: message.session_id@,
            project: message.project@,
            role: message.role@,
            content: message.content@,
            timestamp: match message.timestamp {
                Some(text) => Some(text@),
                None => None,
            },
        }),
        session.deep_view() == (SummaryModel {
            session_id: session.session_id@,
            project: session.project@,
            started_at: match session.started_at {
                Some(text) => Some(text@),
                None => None,
            },
            message_count: session.message_count,
            first_user_message: match session.first_user_message {
                Some(text) => Some(text@),
                None => None,
            },
        }),
        options.deep_view() == (SyncOptionsModel {
            url: options.url@,
            auth_token: match options.auth_token {
                Some(text) => Some(text@),
                None => None,
            },
        }),
        condition.deep_view() == (ConditionModel {
            clause: condition.clause@,
            value: condition.value@,
        }),
{
}

/// The model of an error is of the same kind and holds the same texts, numbers and cause.
pub proof fn law_error_models<E>(
    cause: E,
    path: String,
    url: String,
    count: usize,
    previews: Vec<String>,
    position: u128,
)
    ensures
        VaultError::<E>::SyncDisabled.deep_view() == ErrorModel::<E>::SyncDisabled,
        (VaultError::<E>::SyncFailed { cause }).deep_view() == (ErrorModel::<E>::SyncFailed {
            cause,
        }),
        (VaultError::<E>::OpenSyncedFailed { path, url, cause }).deep_view() == (ErrorModel::<
            E,
        >::OpenSyncedFailed { path: path@, url: url@, cause }),
        (VaultError::<E>::OpenLocalFailed { path, cause }).deep_view() == (ErrorModel::<
            E,
        >::OpenLocalFailed { path: path@, cause }),
        (VaultError::<E>::Database { cause }).deep_view() == (ErrorModel::<E>::Database { cause }),
        VaultError::<E>::NoRows.deep_view() == ErrorModel::<E>::NoRows,
        VaultError::<E>::MalformedRow.deep_view() == ErrorModel::<E>::MalformedRow,
        (VaultError::<E>::NoSession { prefix: path }).deep_view() == (ErrorModel::<E>::NoSession {
            prefix: path@,
        }),
        (VaultError::<E>::AmbiguousPrefix { prefix: path, count, previews }).deep_view() == (
        ErrorModel::<E>::AmbiguousPrefix {
            prefix: path@,
            count: count as nat,
            previews: Seq::new(previews@.len(), |i: int| previews@[i]@),
        }),
        (VaultError::<E>::NoSessionAt { position }).deep_view() == (ErrorModel::<E>::NoSessionAt {
            position: position as nat,
        }),
        VaultError::<E>::VerificationFailed.deep_view() == ErrorModel::<E>::VerificationFailed,
{
    assert(previews.deep_view() =~= Seq::new(previews@.len(), |i: int| previews@[i]@));
}

} // verus!
