//! Finding and listing sessions.
use vstd::prelude::*;
use vstd::string::*;
use vstd::utf8::encode_utf8;
use crate::error::{ErrorModel, VaultError};
use crate::filter::{
    build_limited_query, limited_query, push_when_given, when_given, Condition, ConditionModel,
};
use crate::project::{normalize_project_filter, project_filter};
use crate::task::{
    ask, asked, finish, integer_at, is_query, lemma_only_queries, lemma_run_first, optional_text_at,
    outcome, read_integer, read_optional_text, read_text, run, text_at, text_value, Column,
    NextModel, Reply, ReplyModel, Request, RequestModel, Statement, StatementModel, Step, StepModel,
    Task, Value, ValueModel,
};
use crate::text::{
    begins_like, chars_of, matches_at, occurs_at, starts_like, string_of, trim, trimmed,
};

verus! {

/// A session in the list of sessions.
#[derive(Debug, PartialEq, Eq)]
pub struct SessionSummary {
    pub session_id: String,
    pub project: String,
    pub started_at: Option<String>,
    pub message_count: i64,
    pub first_user_message: Option<String>,
}

/// The model of a [`SessionSummary`].
#[verifier::ext_equal]
pub struct SummaryModel {
    pub session_id: Seq<char>,
    pub project: Seq<char>,
    pub started_at: Option<Seq<char>>,
    pub message_count: i64,
    pub first_user_message: Option<Seq<char>>,
}

impl DeepView for SessionSummary {
    type V = SummaryModel;

    open spec fn deep_view(&self) -> SummaryModel {
        SummaryModel {
            session_id: self.session_id@,
            project: self.project@,
            started_at: self.started_at.deep_view(),
            message_count: self.message_count,
            first_user_message: self.first_user_message.deep_view(),
        }
    }
}

/// Every identifier that starts with the prefix, up to the case of ASCII letters, and maybe
/// more: `LIKE` takes `_` and `%` in the prefix for wildcards.
pub const SELECT_BY_PREFIX: &'static str =
    "SELECT session_id FROM sessions WHERE session_id LIKE ?1 || '%'";

pub const SELECT_NTH_RECENT: &'static str = "SELECT session_id FROM sessions
     ORDER BY COALESCE(started_at, imported_at) DESC
     LIMIT 1 OFFSET ?1";

pub const SELECT_SESSIONS: &'static str = "SELECT s.session_id, s.project, s.started_at,
            (SELECT COUNT(*) FROM messages m WHERE m.session_id = s.session_id) as msg_count,
            NULL as first_msg
     FROM sessions s";

pub const RECENT_SESSIONS_FIRST: &'static str =
    " ORDER BY COALESCE(s.started_at, s.imported_at) DESC";

/// The first messages of the user in a session, as far as a preview may need them.
pub const SELECT_USER_MESSAGES: &'static str = "SELECT substr(content, 1, 200) FROM messages
     WHERE session_id = ?1 AND role = 'user'
     ORDER BY id ASC LIMIT 10";

/// The first messages of the assistant in a session, as far as a preview may need
/// them.
pub const SELECT_ASSISTANT_MESSAGES: &'static str = "SELECT substr(content, 1, 200) FROM messages
     WHERE session_id = ?1 AND role = 'assistant'
     ORDER BY id ASC LIMIT 3";

/// The texts in the first column of a reply, in the order of its rows. A row
/// without one is an error, and so is a failure behind the rows.
pub open spec fn texts_in<E>(reply: ReplyModel<E>) -> Result<Seq<Seq<char>>, ErrorModel<E>> {
    if exists|i: int| 0 <= i < reply.rows.len() && text_at(#[trigger] reply.rows[i], 0) is None {
        Err(ErrorModel::MalformedRow)
    } else {
        match reply.failure {
            Some(cause) => Err(ErrorModel::Database { cause }),
            None => Ok(Seq::new(reply.rows.len(), |i: int| text_at(reply.rows[i], 0)->0)),
        }
    }
}

/// Reads the texts in the first column of a reply.
fn read_texts<E>(reply: Reply<E>) -> (texts: Result<Vec<String>, VaultError<E>>)
    ensures
        outcome(texts) == texts_in(reply.deep_view()),
{
    let mut texts: Vec<String> = Vec::new();
    let ghost model = reply.deep_view();
    let mut i: usize = 0;
    while i < reply.rows.len()
        invariant
            i <= reply.rows@.len(),
            model == reply.deep_view(),
            texts@.len() == i,
            forall|k: int|
                0 <= k < i ==> text_at(#[trigger] model.rows[k], 0) == Some(texts@[k]@),
        decreases reply.rows@.len() - i,
    {
        match read_text(&reply.rows[i], 0) {
            Some(text) => texts.push(text),
            None => {
                assert(text_at(model.rows[i as int], 0) is None);
                return Err(VaultError::MalformedRow);
            },
        }
        i += 1;
    }
    match reply.failure {
        Some(cause) => Err(VaultError::Database { cause }),
        None => {
            assert(texts.deep_view() =~= texts_in(model)->Ok_0);
            Ok(texts)
        },
    }
}

/// The request for the texts that `sql` finds for `text`.
pub open spec fn fetch_texts(sql: Seq<char>, text: Seq<char>) -> RequestModel {
    RequestModel::FetchAll {
        statement: StatementModel { sql, params: seq![ValueModel::Text(text)] },
        columns: seq![Column::Text],
    }
}

/// Asks for the texts that `sql` finds for `text`.
fn texts_request(sql: &str, text: &str) -> (request: Request)
    ensures
        request.deep_view() == fetch_texts(sql@, text@),
{
    let params: Vec<Value> = vec![text_value(text)];
    let columns: Vec<Column> = vec![Column::Text];
    assert(params.deep_view() =~= seq![ValueModel::Text(text@)]);
    assert(columns.deep_view() =~= seq![Column::Text]);
    Request::FetchAll { statement: Statement { sql: sql.to_string(), params }, columns }
}

/// Resolving a prefix, waiting for the identifiers that may start with it.
pub struct ResolveSessionId {
    pub prefix: String,
}

impl DeepView for ResolveSessionId {
    type V = Seq<char>;

    open spec fn deep_view(&self) -> Seq<char> {
        self.prefix@
    }
}

/// The first step of resolving a prefix.
pub open spec fn resolving<E>(prefix: Seq<char>) -> StepModel<Seq<char>, Seq<char>, E> {
    StepModel::ask(prefix, fetch_texts(SELECT_BY_PREFIX@, prefix))
}

/// Resolves the prefix of a session's identifier to the whole identifier.
/// It is an error that the prefix matches no session or several ones. The case of ASCII
/// letters does not matter, and no character of the prefix is a wildcard.
pub fn resolve_session_id<E>(prefix: &str) -> (step: Step<ResolveSessionId, String, E>)
    ensures
        step.deep_view() == resolving::<E>(prefix@),
{
    ask(
        ResolveSessionId { prefix: prefix.to_string() },
        texts_request(SELECT_BY_PREFIX, prefix),
    )
}

/// The members of `ids` that start with `prefix`, up to the case of ASCII letters.
pub open spec fn starting_with(prefix: Seq<char>, ids: Seq<Seq<char>>) -> Seq<Seq<char>> {
    ids.filter(|id: Seq<char>| starts_like(id, prefix))
}

/// Keeps the members of `ids` that start with `prefix`, up to the case of ASCII letters.
fn keep_starting_with(prefix: &str, ids: Vec<String>) -> (kept: Vec<String>)
    ensures
        kept.deep_view() == starting_with(prefix@, ids.deep_view()),
{
    let prefix_chars = chars_of(prefix);
    let ghost all = ids.deep_view();
    let ghost starts = |id: Seq<char>| starts_like(id, prefix@);
    let mut kept: Vec<String> = Vec::new();
    let mut i: usize = 0;
    proof {
        reveal(Seq::filter);
    }
    assert(kept.deep_view() =~= all.take(0).filter(starts));
    while i < ids.len()
        invariant
            i <= ids@.len(),
            prefix_chars@ == prefix@,
            all == ids.deep_view(),
            starts == (|id: Seq<char>| starts_like(id, prefix@)),
            kept.deep_view() == all.take(i as int).filter(starts),
        decreases ids@.len() - i,
    {
        let ghost before = kept.deep_view();
        if begins_like(&chars_of(ids[i].as_str()), &prefix_chars) {
            kept.push(ids[i].clone());
            assert(kept.deep_view() =~= before.push(all[i as int]));
        }
        i += 1;
        proof {
            reveal(Seq::filter);
            assert(all.take(i as int).drop_last() =~= all.take(i - 1));
            assert(all.take(i as int).last() == all[i - 1]);
        }
    }
    assert(all.take(all.len() as int) =~= all);
    kept
}

/// The one identifier among `matches`; where there are several, the error shows at
/// most five.
pub open spec fn only_match<E>(prefix: Seq<char>, matches: Seq<Seq<char>>) -> Result<
    Seq<char>,
    ErrorModel<E>,
> {
    if matches.len() == 0 {
        Err(ErrorModel::NoSession { prefix })
    } else if matches.len() == 1 {
        Ok(matches[0])
    } else {
        Err(
            ErrorModel::AmbiguousPrefix {
                prefix,
                count: matches.len(),
                previews: if matches.len() > 5 {
                    matches.take(5)
                } else {
                    matches
                },
            },
        )
    }
}

/// Picks the one identifier among `matches`.
fn pick_only_match<E>(prefix: String, matches: Vec<String>) -> (picked: Result<
    String,
    VaultError<E>,
>)
    ensures
        outcome(picked) == only_match::<E>(prefix@, matches.deep_view()),
{
    let ghost model = matches.deep_view();
    let mut matches = matches;
    let count: usize = matches.len();
    if count == 0 {
        Err(VaultError::NoSession { prefix })
    } else if count == 1 {
        Ok(matches.swap_remove(0))
    } else {
        if count > 5 {
            matches.truncate(5);
        }
        assert(matches.deep_view() =~= if model.len() > 5 {
            model.take(5)
        } else {
            model
        });
        Err(VaultError::AmbiguousPrefix { prefix, count, previews: matches })
    }
}

impl<E> Task<E> for ResolveSessionId {
    type Output = String;

    open spec fn after(state: Seq<char>, reply: ReplyModel<E>) -> StepModel<
        Seq<char>,
        Seq<char>,
        E,
    > {
        StepModel::finish(
            match texts_in(reply) {
                Ok(ids) => only_match(state, starting_with(state, ids)),
                Err(error) => Err(error),
            },
        )
    }

    fn resume(self, reply: Reply<E>) -> (step: Step<Self, String, E>) {
        finish(
            match read_texts(reply) {
                Ok(ids) => {
                    let matches = keep_starting_with(self.prefix.as_str(), ids);
                    pick_only_match(self.prefix, matches)
                },
                Err(error) => Err(error),
            },
        )
    }
}

/// A prefix is resolved exactly where one of the identifiers in the reply starts with it,
/// up to the case of ASCII letters, and to that one.
pub proof fn law_only_unique_prefixes_resolve<E>(
    prefix: Seq<char>,
    reply: ReplyModel<E>,
    session_id: Seq<char>,
)
    requires
        texts_in(reply) is Ok,
    ensures
        <ResolveSessionId as Task<E>>::after(prefix, reply).next == NextModel::<
            Seq<char>,
            Seq<char>,
            E,
        >::Done(session_id) <==> starting_with(prefix, texts_in(reply)->Ok_0) == seq![session_id],
{
    let matches = starting_with(prefix, texts_in(reply)->Ok_0);
    if matches.len() == 1 && matches[0] == session_id {
        assert(matches =~= seq![session_id]);
    }
}

/// Waiting for the session at an index.
pub struct NthRecentSessionId {
    pub n: usize,
}

impl DeepView for NthRecentSessionId {
    type V = usize;

    open spec fn deep_view(&self) -> usize {
        self.n
    }
}

/// The value bound to `OFFSET` for the index `n`: the index itself, or the largest one
/// that can be bound, at which there is no session either.
pub open spec fn offset_value(n: usize) -> i64 {
    if n <= i64::MAX {
        n as i64
    } else {
        i64::MAX
    }
}

/// The request for the session at the index `n`.
pub open spec fn nth_request(n: usize) -> RequestModel {
    RequestModel::FetchFirst {
        statement: StatementModel {
            sql: SELECT_NTH_RECENT@,
            params: seq![ValueModel::Integer(offset_value(n))],
        },
        columns: seq![Column::Text],
    }
}

/// The first step of looking for the session at the index `n`.
pub open spec fn looking_up<E>(n: usize) -> StepModel<usize, Seq<char>, E> {
    StepModel::ask(n, nth_request(n))
}

/// Gets the identifier of the `n`-th most recent session, counted from 0.
pub fn nth_recent_session_id<E>(n: usize) -> (step: Step<NthRecentSessionId, String, E>)
    ensures
        step.deep_view() == looking_up::<E>(n),
{
    let offset: i64 = if n as u128 <= i64::MAX as u128 {
        n as i64
    } else {
        i64::MAX
    };
    let params: Vec<Value> = vec![Value::Integer(offset)];
    let columns: Vec<Column> = vec![Column::Text];
    assert(params.deep_view() =~= seq![ValueModel::Integer(offset_value(n))]);
    assert(columns.deep_view() =~= seq![Column::Text]);
    let statement = Statement { sql: SELECT_NTH_RECENT.to_string(), params };
    ask(NthRecentSessionId { n }, Request::FetchFirst { statement, columns })
}

impl<E> Task<E> for NthRecentSessionId {
    type Output = String;

    open spec fn after(state: usize, reply: ReplyModel<E>) -> StepModel<usize, Seq<char>, E> {
        StepModel::finish(
            if reply.rows.len() > 0 {
                match text_at(reply.rows[0], 0) {
                    Some(session_id) => Ok(session_id),
                    None => Err(ErrorModel::MalformedRow),
                }
            } else {
                match reply.failure {
                    Some(cause) => Err(ErrorModel::Database { cause }),
                    None => Err(ErrorModel::NoSessionAt { position: (state + 1) as nat }),
                }
            },
        )
    }

    fn resume(self, reply: Reply<E>) -> (step: Step<Self, String, E>) {
        finish(
            if reply.rows.len() > 0 {
                match read_text(&reply.rows[0], 0) {
                    Some(session_id) => Ok(session_id),
                    None => Err(VaultError::MalformedRow),
                }
            } else {
                match reply.failure {
                    Some(cause) => Err(VaultError::Database { cause }),
                    None => Err(VaultError::NoSessionAt { position: self.n as u128 + 1 }),
                }
            },
        )
    }
}

/// Whether a message is suitable as the preview of a session: trimmed, it has at
/// least five bytes, does not start like the output of a tool, and is none of the
/// messages that no human writes.
pub open spec fn meaningful(content: Seq<char>) -> bool {
    let trimmed = trim(content);
    &&& encode_utf8(trimmed).len() >= 5
    &&& trimmed[0] != '{'
    &&& trimmed[0] != '['
    &&& trimmed[0] != '<'
    &&& !occurs_at(trimmed, "Tool loaded"@, 0)
    &&& !occurs_at(trimmed, "This session is being continued"@, 0)
    &&& !occurs_at(trimmed, "Your task is to create a detailed summary"@, 0)
}

/// Checks if a message is suitable as the preview of a session.
/// Skips the output of tools and the messages that no human writes.
pub fn is_meaningful_preview(content: &str) -> (yes: bool)
    ensures
        yes == meaningful(content@),
{
    let chars = trimmed(content);
    let text = string_of(&chars);
    if text.as_str().as_bytes().len() < 5 {
        return false;
    }
    proof {
        if chars@.len() == 0 {
            assert(encode_utf8(chars@).len() == 0);
        }
    }
    let first: char = chars[0];
    if first == '{' || first == '[' || first == '<' {
        return false;
    }
    if matches_at(&chars, &chars_of("Tool loaded"), 0) {
        return false;
    }
    if matches_at(&chars, &chars_of("This session is being continued"), 0) {
        return false;
    }
    if matches_at(&chars, &chars_of("Your task is to create a detailed summary"), 0) {
        return false;
    }
    true
}

/// The first of `candidates` that is suitable as a preview.
pub open spec fn first_meaningful(candidates: Seq<Seq<char>>) -> Option<Seq<char>>
    decreases candidates.len(),
{
    if candidates.len() == 0 {
        None
    } else if meaningful(candidates.first()) {
        Some(candidates.first())
    } else {
        first_meaningful(candidates.drop_first())
    }
}

/// Picks the first of `candidates` that is suitable as a preview.
pub fn choose_preview(candidates: Vec<String>) -> (preview: Option<String>)
    ensures
        preview.deep_view() == first_meaningful(candidates.deep_view()),
{
    let ghost all = candidates.deep_view();
    let mut i: usize = 0;
    assert(all.skip(0) =~= all);
    while i < candidates.len()
        invariant
            i <= candidates@.len(),
            all == candidates.deep_view(),
            first_meaningful(all) == first_meaningful(all.skip(i as int)),
        decreases candidates@.len() - i,
    {
        assert(all.skip(i as int).first() == candidates@[i as int]@);
        if is_meaningful_preview(candidates[i].as_str()) {
            return Some(candidates[i].clone());
        }
        assert(all.skip(i as int).drop_first() =~= all.skip(i + 1));
        i += 1;
    }
    None
}

/// The columns of a session.
pub open spec fn summary_columns() -> Seq<Column> {
    seq![Column::Text, Column::Text, Column::OptionalText, Column::Integer]
}

/// The session in a row, without a preview.
pub open spec fn summary_in(row: Seq<ValueModel>) -> Option<SummaryModel> {
    match (text_at(row, 0), text_at(row, 1), optional_text_at(row, 2), integer_at(row, 3)) {
        (Some(session_id), Some(project), Some(started_at), Some(message_count)) => Some(
            SummaryModel {
                session_id,
                project,
                started_at,
                message_count,
                first_user_message: None,
            },
        ),
        _ => None,
    }
}

/// The sessions in a reply, in the order of its rows. A row that is not a session
/// is an error, and so is a failure behind the rows.
pub open spec fn summaries_in<E>(reply: ReplyModel<E>) -> Result<
    Seq<SummaryModel>,
    ErrorModel<E>,
> {
    if exists|i: int| 0 <= i < reply.rows.len() && summary_in(#[trigger] reply.rows[i]) is None {
        Err(ErrorModel::MalformedRow)
    } else {
        match reply.failure {
            Some(cause) => Err(ErrorModel::Database { cause }),
            None => Ok(Seq::new(reply.rows.len(), |i: int| summary_in(reply.rows[i])->0)),
        }
    }
}

/// Reads the session in a row.
fn read_summary(row: &Vec<Value>) -> (summary: Option<SessionSummary>)
    ensures
        summary.deep_view() == summary_in(row.deep_view()),
{
    match (
        read_text(row, 0),
        read_text(row, 1),
        read_optional_text(row, 2),
        read_integer(row, 3),
    ) {
        (Some(session_id), Some(project), Some(started_at), Some(message_count)) => Some(
            SessionSummary {
                session_id,
                project,
                started_at,
                message_count,
                first_user_message: None,
            },
        ),
        _ => None,
    }
}

/// Reads the sessions in a reply.
fn read_summaries<E>(reply: Reply<E>) -> (summaries: Result<Vec<SessionSummary>, VaultError<E>>)
    ensures
        outcome(summaries) == summaries_in(reply.deep_view()),
{
    let mut summaries: Vec<SessionSummary> = Vec::new();
    let ghost model = reply.deep_view();
    let mut i: usize = 0;
    while i < reply.rows.len()
        invariant
            i <= reply.rows@.len(),
            model == reply.deep_view(),
            summaries@.len() == i,
            forall|k: int|
                0 <= k < i ==> summary_in(#[trigger] model.rows[k]) == Some(
                    summaries@[k].deep_view(),
                ),
        decreases reply.rows@.len() - i,
    {
        match read_summary(&reply.rows[i]) {
            Some(summary) => summaries.push(summary),
            None => {
                assert(summary_in(model.rows[i as int]) is None);
                return Err(VaultError::MalformedRow);
            },
        }
        i += 1;
    }
    match reply.failure {
        Some(cause) => Err(VaultError::Database { cause }),
        None => {
            assert(summaries.deep_view() =~= summaries_in(model)->Ok_0);
            Ok(summaries)
        },
    }
}

/// The state of a listing.
#[verifier::ext_equal]
pub enum ListModel {
    /// Waiting for the sessions.
    Sessions,
    /// The sessions in front of `next` have their previews; waiting for the messages
    /// of the user in session `next`.
    UserMessages { found: Seq<SummaryModel>, next: nat },
    /// The user's messages in session `next` are no preview; waiting for those of
    /// the assistant.
    AssistantMessages { found: Seq<SummaryModel>, next: nat },
}

/// What a listing waits for.
enum Awaited {
    Sessions,
    UserMessages,
    AssistantMessages,
}

/// Listing sessions.
pub struct ListSessions {
    awaited: Awaited,
    found: Vec<SessionSummary>,
    next: usize,
}

impl ListSessions {
    /// Messages are awaited of one of the sessions that were found.
    #[verifier::type_invariant]
    spec fn inv(self) -> bool {
        self.awaited is Sessions || self.next < self.found@.len()
    }
}

impl DeepView for ListSessions {
    type V = ListModel;

    closed spec fn deep_view(&self) -> ListModel {
        match self.awaited {
            Awaited::Sessions => ListModel::Sessions,
            Awaited::UserMessages => ListModel::UserMessages {
                found: self.found.deep_view(),
                next: self.next as nat,
            },
            Awaited::AssistantMessages => ListModel::AssistantMessages {
                found: self.found.deep_view(),
                next: self.next as nat,
            },
        }
    }
}

/// The conditions of a listing.
pub open spec fn list_conditions(
    project_name: Option<Seq<char>>,
    since: Option<Seq<char>>,
    until: Option<Seq<char>>,
) -> Seq<ConditionModel> {
    when_given(
        "s.project LIKE ?"@,
        match project_name {
            Some(name) => Some(project_filter(name)),
            None => None,
        },
    ) + when_given("COALESCE(s.started_at, s.imported_at) >= ?"@, since) + when_given(
        "COALESCE(s.started_at, s.imported_at) <= ?"@,
        until,
    )
}

/// The request for the sessions of a listing.
pub open spec fn list_request(
    limit: usize,
    project_name: Option<Seq<char>>,
    since: Option<Seq<char>>,
    until: Option<Seq<char>>,
) -> RequestModel {
    RequestModel::FetchAll {
        statement: limited_query(
            SELECT_SESSIONS@,
            list_conditions(project_name, since, until),
            RECENT_SESSIONS_FIRST@,
            limit,
        ),
        columns: summary_columns(),
    }
}

/// The first step of a listing.
pub open spec fn listing<E>(
    limit: usize,
    project_name: Option<Seq<char>>,
    since: Option<Seq<char>>,
    until: Option<Seq<char>>,
) -> StepModel<ListModel, Seq<SummaryModel>, E> {
    StepModel::ask(ListModel::Sessions, list_request(limit, project_name, since, until))
}

/// Lists the sessions that meet the filters, the most recent first, at most `limit`
/// of them, each with the first of its messages that is suitable as a preview.
pub fn list_sessions<E>(
    limit: usize,
    project_filter: Option<&str>,
    since: Option<&str>,
    until: Option<&str>,
) -> (step: Step<ListSessions, Vec<SessionSummary>, E>)
    ensures
        step.deep_view() == listing::<E>(
            limit,
            project_filter.deep_view(),
            since.deep_view(),
            until.deep_view(),
        ),
{
    let mut conditions: Vec<Condition> = Vec::new();
    assert(conditions.deep_view() =~= seq![]);
    match project_filter {
        Some(filter) => {
            let pattern = normalize_project_filter(filter);
            push_when_given(&mut conditions, "s.project LIKE ?", Some(pattern.as_str()));
        },
        None => push_when_given(&mut conditions, "s.project LIKE ?", None),
    }
    push_when_given(&mut conditions, "COALESCE(s.started_at, s.imported_at) >= ?", since);
    push_when_given(&mut conditions, "COALESCE(s.started_at, s.imported_at) <= ?", until);
    assert(conditions.deep_view() =~= list_conditions(
        project_filter.deep_view(),
        since.deep_view(),
        until.deep_view(),
    ));
    let statement = build_limited_query(
        SELECT_SESSIONS,
        conditions,
        RECENT_SESSIONS_FIRST,
        limit,
    );
    let columns: Vec<Column> = vec![
        Column::Text,
        Column::Text,
        Column::OptionalText,
        Column::Integer,
    ];
    assert(columns.deep_view() =~= summary_columns());
    let task = ListSessions { awaited: Awaited::Sessions, found: Vec::new(), next: 0 };
    ask(task, Request::FetchAll { statement, columns })
}

/// The listing goes on with session `next`, or is done where there is none.
pub open spec fn list_from<E>(found: Seq<SummaryModel>, next: nat) -> StepModel<
    ListModel,
    Seq<SummaryModel>,
    E,
> {
    if next < found.len() {
        StepModel::ask(
            ListModel::UserMessages { found, next },
            fetch_texts(SELECT_USER_MESSAGES@, found[next as int].session_id),
        )
    } else {
        StepModel::finish(Ok(found))
    }
}

/// `found` with `preview` for session `i`.
pub open spec fn with_preview(
    found: Seq<SummaryModel>,
    i: nat,
    preview: Option<Seq<char>>,
) -> Seq<SummaryModel> {
    found.update(
        i as int,
        SummaryModel { first_user_message: preview, ..found[i as int] },
    )
}

/// Goes on with session `next`.
fn go_on<E>(found: Vec<SessionSummary>, next: usize) -> (step: Step<
    ListSessions,
    Vec<SessionSummary>,
    E,
>)
    ensures
        step.deep_view() == list_from::<E>(found.deep_view(), next as nat),
{
    if next < found.len() {
        let request = texts_request(SELECT_USER_MESSAGES, found[next].session_id.as_str());
        ask(ListSessions { awaited: Awaited::UserMessages, found, next }, request)
    } else {
        finish(Ok(found))
    }
}

/// Sets the preview of session `i` and goes on with the next one.
fn set_preview<E>(found: Vec<SessionSummary>, i: usize, preview: Option<String>) -> (step: Step<
    ListSessions,
    Vec<SessionSummary>,
    E,
>)
    requires
        i < found@.len(),
    ensures
        step.deep_view() == list_from::<E>(
            with_preview(found.deep_view(), i as nat, preview.deep_view()),
            (i + 1) as nat,
        ),
{
    let ghost model = found.deep_view();
    let ghost chosen = preview.deep_view();
    let mut found = found;
    assert(i + 1 <= found.len());
    let mut summary = found.remove(i);
    summary.first_user_message = preview;
    found.insert(i, summary);
    assert(found.deep_view() =~= with_preview(model, i as nat, chosen));
    go_on(found, i + 1)
}

impl<E> Task<E> for ListSessions {
    type Output = Vec<SessionSummary>;

    open spec fn after(state: ListModel, reply: ReplyModel<E>) -> StepModel<
        ListModel,
        Seq<SummaryModel>,
        E,
    > {
        match state {
            ListModel::Sessions => match summaries_in(reply) {
                Ok(found) => list_from(found, 0),
                Err(error) => StepModel::finish(Err(error)),
            },
            ListModel::UserMessages { found, next } => match texts_in(reply) {
                Ok(candidates) => match first_meaningful(candidates) {
                    Some(preview) => list_from(
                        with_preview(found, next, Some(preview)),
                        next + 1,
                    ),
                    None => StepModel::ask(
                        ListModel::AssistantMessages { found, next },
                        fetch_texts(SELECT_ASSISTANT_MESSAGES@, found[next as int].session_id),
                    ),
                },
                Err(error) => StepModel::finish(Err(error)),
            },
            ListModel::AssistantMessages { found, next } => match texts_in(reply) {
                Ok(candidates) => list_from(
                    with_preview(found, next, first_meaningful(candidates)),
                    next + 1,
                ),
                Err(error) => StepModel::finish(Err(error)),
            },
        }
    }

    fn resume(self, reply: Reply<E>) -> (step: Step<Self, Vec<SessionSummary>, E>) {
        proof {
            use_type_invariant(&self);
        }
        let ListSessions { awaited, found, next } = self;
        match awaited {
            Awaited::Sessions => match read_summaries(reply) {
                Ok(found) => go_on(found, 0),
                Err(error) => finish(Err(error)),
            },
            Awaited::UserMessages => match read_texts(reply) {
                Ok(candidates) => match choose_preview(candidates) {
                    Some(preview) => set_preview(found, next, Some(preview)),
                    None => {
                        let request = texts_request(
                            SELECT_ASSISTANT_MESSAGES,
                            found[next].session_id.as_str(),
                        );
                        ask(
                            ListSessions { awaited: Awaited::AssistantMessages, found, next },
                            request,
                        )
                    },
                },
                Err(error) => finish(Err(error)),
            },
            Awaited::AssistantMessages => match read_texts(reply) {
                Ok(candidates) => set_preview(found, next, choose_preview(candidates)),
                Err(error) => finish(Err(error)),
            },
        }
    }
}

/// The preview of a session: the first suitable message of the user, else the first
/// suitable one of the assistant.
pub open spec fn preview_of(user: Seq<Seq<char>>, assistant: Seq<Seq<char>>) -> Option<Seq<char>> {
    match first_meaningful(user) {
        Some(preview) => Some(preview),
        None => first_meaningful(assistant),
    }
}

/// The texts in a reply that has them.
pub open spec fn texts_of<E>(reply: ReplyModel<E>) -> Seq<Seq<char>> {
    texts_in(reply)->Ok_0
}

/// The sessions `found`, those in front of `until` with the previews that the
/// messages of the user and of the assistant give.
pub open spec fn listed<E>(
    found: Seq<SummaryModel>,
    users: Seq<ReplyModel<E>>,
    assistants: Seq<ReplyModel<E>>,
    until: nat,
) -> Seq<SummaryModel> {
    Seq::new(
        found.len(),
        |i: int|
            if i < until {
                SummaryModel {
                    first_user_message: preview_of(texts_of(users[i]), texts_of(assistants[i])),
                    ..found[i]
                }
            } else {
                found[i]
            },
    )
}

/// The replies that a listing gets from session `from` on: the messages of the user,
/// and those of the assistant where none of the user's is suitable.
pub open spec fn preview_replies<E>(
    users: Seq<ReplyModel<E>>,
    assistants: Seq<ReplyModel<E>>,
    from: nat,
) -> Seq<ReplyModel<E>>
    decreases users.len() - from,
{
    if from >= users.len() {
        seq![]
    } else {
        let rest = preview_replies(users, assistants, from + 1);
        if first_meaningful(texts_of(users[from as int])) is Some {
            seq![users[from as int]] + rest
        } else {
            seq![users[from as int]] + (seq![assistants[from as int]] + rest)
        }
    }
}

/// A listing that has reached session `from` gives the sessions from there on their
/// previews.
proof fn lemma_listing_goes_on<E>(
    found: Seq<SummaryModel>,
    users: Seq<ReplyModel<E>>,
    assistants: Seq<ReplyModel<E>>,
    from: nat,
)
    requires
        from <= found.len(),
        users.len() == found.len(),
        assistants.len() == found.len(),
        forall|i: int| 0 <= i < users.len() ==> texts_in(#[trigger] users[i]) is Ok,
        forall|i: int| 0 <= i < assistants.len() ==> texts_in(#[trigger] assistants[i]) is Ok,
    ensures
        run::<ListSessions, E>(
            list_from::<E>(listed(found, users, assistants, from), from),
            preview_replies(users, assistants, from),
        ) == StepModel::<ListModel, Seq<SummaryModel>, E>::finish(
            Ok(listed(found, users, assistants, found.len())),
        ),
    decreases found.len() - from,
{
    let partial = listed(found, users, assistants, from);
    let step = list_from::<E>(partial, from);
    if from < found.len() {
        let user = users[from as int];
        let assistant = assistants[from as int];
        let rest = preview_replies(users, assistants, from + 1);
        let further = listed(found, users, assistants, from + 1);
        let preview = preview_of(texts_of(user), texts_of(assistant));
        assert(texts_in(user) is Ok);
        assert(texts_in(assistant) is Ok);
        assert(with_preview(partial, from, preview) =~= further);
        if first_meaningful(texts_of(user)) is Some {
            lemma_run_first::<ListSessions, E>(step, user, rest);
        } else {
            lemma_run_first::<ListSessions, E>(step, user, seq![assistant] + rest);
            let second = <ListSessions as Task<E>>::after(step.next->Ask_0, user);
            lemma_run_first::<ListSessions, E>(second, assistant, rest);
        }
        lemma_listing_goes_on(found, users, assistants, from + 1);
    } else {
        assert(partial =~= listed(found, users, assistants, found.len()));
    }
}

/// A listing whose requests all succeed gives every session that was found, in the
/// order in which it was found and unchanged but for its preview, which is the first
/// suitable message of the user, or else of the assistant. The assistant's messages
/// are asked for only where the user's give none.
pub proof fn law_every_session_gets_its_preview<E>(
    limit: usize,
    project_name: Option<Seq<char>>,
    since: Option<Seq<char>>,
    until: Option<Seq<char>>,
    sessions: ReplyModel<E>,
    users: Seq<ReplyModel<E>>,
    assistants: Seq<ReplyModel<E>>,
)
    requires
        summaries_in(sessions) is Ok,
        users.len() == sessions.rows.len(),
        assistants.len() == sessions.rows.len(),
        forall|i: int| 0 <= i < users.len() ==> texts_in(#[trigger] users[i]) is Ok,
        forall|i: int| 0 <= i < assistants.len() ==> texts_in(#[trigger] assistants[i]) is Ok,
    ensures
        run::<ListSessions, E>(
            listing::<E>(limit, project_name, since, until),
            seq![sessions] + preview_replies(users, assistants, 0),
        ) == StepModel::<ListModel, Seq<SummaryModel>, E>::finish(
            Ok(listed(summaries_in(sessions)->Ok_0, users, assistants, sessions.rows.len())),
        ),
{
    let found = summaries_in(sessions)->Ok_0;
    let start = listing::<E>(limit, project_name, since, until);
    lemma_run_first::<ListSessions, E>(start, sessions, preview_replies(users, assistants, 0));
    assert(listed(found, users, assistants, 0) =~= found);
    lemma_listing_goes_on(found, users, assistants, 0);
}

/// A message is a preview only where it is suitable.
pub proof fn law_previews_are_meaningful(candidates: Seq<Seq<char>>)
    ensures
        match first_meaningful(candidates) {
            Some(preview) => exists|i: int|
                0 <= i < candidates.len() && preview == #[trigger] candidates[i] && meaningful(
                    preview,
                ) && forall|j: int| 0 <= j < i ==> !meaningful(#[trigger] candidates[j]),
            None => forall|i: int|
                0 <= i < candidates.len() ==> !meaningful(#[trigger] candidates[i]),
        },
    decreases candidates.len(),
{
    if candidates.len() > 0 && !meaningful(candidates.first()) {
        let rest = candidates.drop_first();
        law_previews_are_meaningful(rest);
        match first_meaningful(rest) {
            Some(preview) => {
                let i = choose|i: int|
                    0 <= i < rest.len() && preview == #[trigger] rest[i] && meaningful(preview)
                        && forall|j: int| 0 <= j < i ==> !meaningful(#[trigger] rest[j]);
                assert(preview == candidates[i + 1]);
                assert forall|j: int| 0 <= j < i + 1 implies !meaningful(
                    #[trigger] candidates[j],
                ) by {
                    if j > 0 {
                        assert(candidates[j] == rest[j - 1]);
                    }
                }
            },
            None => {
                assert forall|i: int| 0 <= i < candidates.len() implies !meaningful(
                    #[trigger] candidates[i],
                ) by {
                    if i > 0 {
                        assert(candidates[i] == rest[i - 1]);
                    }
                }
            },
        }
    } else if candidates.len() > 0 {
        assert(candidates[0] == candidates.first());
    }
}

/// A listing changes nothing: it only reads rows, however its requests are answered.
pub proof fn law_listing_only_reads<E>(
    limit: usize,
    project_name: Option<Seq<char>>,
    since: Option<Seq<char>>,
    until: Option<Seq<char>>,
    replies: Seq<ReplyModel<E>>,
)
    ensures
        ({
            let requests = asked::<ListSessions, E>(
                listing::<E>(limit, project_name, since, until),
                replies,
            );
            forall|i: int| 0 <= i < requests.len() ==> is_query(#[trigger] requests[i])
        }),
{
    lemma_only_queries::<ListSessions, E>(
        listing::<E>(limit, project_name, since, until),
        replies,
    );
}

} // verus!
