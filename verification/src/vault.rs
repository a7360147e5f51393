//! Opening the archive, bringing its schema up to date, and syncing it.
use vstd::prelude::*;
use crate::error::{ErrorModel, VaultError};
use crate::store::{count_request, fetch_count};
use crate::task::{
    ask, asked, count_of, finish, first_integer, first_row, integer_at, lemma_run_at,
    optional_text_at, outcome, run, query_integer, query_row, read_integer, read_optional_text,
    read_text, succeeded, text_at, Column, Line, LineModel, Next, NextModel, Reply, ReplyModel,
    Request, RequestModel, Statement, StatementModel, Step, StepModel, Task, Value,
};
use crate::text::{contains, has, occurs_at};

verus! {

/// Configuration for multi-device sync via a libSQL sync server (e.g. Turso or
/// self-hosted sqld).
pub struct SyncOptions {
    pub url: String,
    pub auth_token: Option<String>,
}

/// The model of [`SyncOptions`].
#[verifier::ext_equal]
pub struct SyncOptionsModel {
    pub url: Seq<char>,
    pub auth_token: Option<Seq<char>>,
}

impl DeepView for SyncOptions {
    type V = SyncOptionsModel;

    open spec fn deep_view(&self) -> SyncOptionsModel {
        SyncOptionsModel { url: self.url@, auth_token: self.auth_token.deep_view() }
    }
}

/// An open vault. In local mode it is a plain database file; in sync mode it is a
/// replica: reads are served from the local file, writes are forwarded to the sync
/// server, and [`Vault::sync`] pulls remote changes into the replica.
pub struct Vault {
    sync_enabled: bool,
}

/// The model of a [`Vault`].
#[verifier::ext_equal]
pub struct VaultModel {
    pub sync_enabled: bool,
}

impl DeepView for Vault {
    type V = VaultModel;

    closed spec fn deep_view(&self) -> VaultModel {
        VaultModel { sync_enabled: self.sync_enabled }
    }
}

/// Pulling the latest state, waiting for the sync server.
pub struct SyncVault;

impl DeepView for SyncVault {
    type V = ();

    open spec fn deep_view(&self) -> () {
        ()
    }
}

/// Pulling the latest state after writes, waiting for the sync server.
pub struct SyncAfterWrite;

impl DeepView for SyncAfterWrite {
    type V = ();

    open spec fn deep_view(&self) -> () {
        ()
    }
}

/// The first step of pulling the latest state.
pub open spec fn syncing<E>(enabled: bool) -> StepModel<(), u64, E> {
    if enabled {
        StepModel::ask((), RequestModel::Sync)
    } else {
        StepModel::finish(Err(ErrorModel::SyncDisabled))
    }
}

/// The first step of pulling the latest state after writes.
pub open spec fn syncing_after_write<E>(enabled: bool) -> StepModel<(), (), E> {
    if enabled {
        StepModel::ask((), RequestModel::Sync)
    } else {
        StepModel::finish(Ok(()))
    }
}

impl Vault {
    /// Whether the vault has a sync server.
    pub fn sync_enabled(&self) -> (enabled: bool)
        ensures
            enabled == self.deep_view().sync_enabled,
    {
        self.sync_enabled
    }

    /// Pulls the latest state from the sync server into the local replica.
    /// The result is the number of frames applied.
    pub fn sync<E>(&self) -> (step: Step<SyncVault, u64, E>)
        ensures
            step.deep_view() == syncing::<E>(self.deep_view().sync_enabled),
    {
        if self.sync_enabled {
            ask(SyncVault, Request::Sync)
        } else {
            finish(Err(VaultError::SyncDisabled))
        }
    }

    /// Best-effort sync after local writes so the replica reflects them immediately.
    /// Failures are downgraded to a warning: the writes already reached the primary,
    /// and the next successful sync will catch the replica up.
    pub fn sync_after_write<E>(&self) -> (step: Step<SyncAfterWrite, (), E>)
        ensures
            step.deep_view() == syncing_after_write::<E>(self.deep_view().sync_enabled),
    {
        if self.sync_enabled {
            ask(SyncAfterWrite, Request::Sync)
        } else {
            finish(Ok(()))
        }
    }
}

impl<E> Task<E> for SyncVault {
    type Output = u64;

    open spec fn after(state: (), reply: ReplyModel<E>) -> StepModel<(), u64, E> {
        StepModel::finish(
            match reply.failure {
                Some(cause) => Err(ErrorModel::SyncFailed { cause }),
                None => Ok(reply.count),
            },
        )
    }

    fn resume(self, reply: Reply<E>) -> (step: Step<Self, u64, E>) {
        finish(
            match reply.failure {
                Some(cause) => Err(VaultError::SyncFailed { cause }),
                None => Ok(reply.count),
            },
        )
    }
}

/// The warning that `text` gives where there is a failure.
pub open spec fn warning_of<E>(text: Seq<char>, failure: Option<E>) -> Seq<LineModel<E>> {
    match failure {
        Some(cause) => seq![LineModel::Warning(text, cause)],
        None => seq![],
    }
}

/// Warns with `text` where there is a failure.
fn warn_of<E>(text: &str, failure: Option<E>) -> (lines: Vec<Line<E>>)
    ensures
        lines.deep_view() == warning_of(text@, failure),
{
    let mut lines: Vec<Line<E>> = Vec::new();
    if let Some(cause) = failure {
        lines.push(Line::Warning(text.to_string(), cause));
    }
    assert(lines.deep_view() =~= warning_of(text@, failure));
    lines
}

/// A line for the standard error.
fn notice<E>(text: &str) -> (lines: Vec<Line<E>>)
    ensures
        lines.deep_view() == seq![LineModel::<E>::Notice(text@)],
{
    let lines: Vec<Line<E>> = vec![Line::Notice(text.to_string())];
    assert(lines.deep_view() =~= seq![LineModel::<E>::Notice(text@)]);
    lines
}

impl<E> Task<E> for SyncAfterWrite {
    type Output = ();

    open spec fn after(state: (), reply: ReplyModel<E>) -> StepModel<(), (), E> {
        StepModel {
            lines: warning_of(
                "Warning: post-write sync failed (will catch up on next sync): "@,
                reply.failure,
            ),
            next: NextModel::Done(()),
        }
    }

    fn resume(self, reply: Reply<E>) -> (step: Step<Self, (), E>) {
        let lines = warn_of(
            "Warning: post-write sync failed (will catch up on next sync): ",
            reply.failure,
        );
        Step { lines, next: Next::Done(()) }
    }
}

/// The settings of a local database.
pub const CONFIGURE: &'static str = "PRAGMA journal_mode=WAL;
     PRAGMA busy_timeout=5000;
     PRAGMA foreign_keys=ON;";

/// Whether the sessions are there, and how the full-text index was created.
pub const SELECT_SCHEMA: &'static str =
    "SELECT EXISTS(SELECT 1 FROM sqlite_master WHERE type='table' AND name='sessions'),
            (SELECT sql FROM sqlite_master WHERE type='table' AND name='messages_fts')";

pub const CREATE_TABLES: &'static str = "
    CREATE TABLE IF NOT EXISTS sessions (
        session_id TEXT PRIMARY KEY,
        project    TEXT NOT NULL,
        started_at TEXT,
        imported_at TEXT NOT NULL DEFAULT (datetime('now'))
    );

    CREATE TABLE IF NOT EXISTS messages (
        id         INTEGER PRIMARY KEY AUTOINCREMENT,
        session_id TEXT NOT NULL,
        uuid       TEXT,
        role       TEXT NOT NULL,
        content    TEXT NOT NULL,
        timestamp  TEXT,
        FOREIGN KEY (session_id) REFERENCES sessions(session_id)
    );

    CREATE UNIQUE INDEX IF NOT EXISTS idx_messages_uuid
        ON messages(uuid) WHERE uuid IS NOT NULL;
    ";

pub const INDEX_EXISTS: &'static str =
    "SELECT EXISTS(SELECT 1 FROM sqlite_master WHERE type='table' AND name='messages_fts')";

pub const SELECT_INDEX: &'static str =
    "SELECT sql FROM sqlite_master WHERE type='table' AND name='messages_fts'";

pub const DROP_INDEX: &'static str = "
    DROP TRIGGER IF EXISTS messages_ai;
    DROP TRIGGER IF EXISTS messages_ad;
    DROP TRIGGER IF EXISTS messages_au;
    DROP TABLE messages_fts;
    ";

pub const CREATE_INDEX: &'static str = "CREATE VIRTUAL TABLE messages_fts USING fts5(content, content_rowid='id', content='messages', tokenize='porter unicode61');";

/// The tokenizer in the statement that creates the full-text index.
pub const TOKENIZER: &'static str = "tokenize='porter unicode61'";

pub const REBUILD_INDEX: &'static str = "INSERT INTO messages_fts(messages_fts) VALUES('rebuild')";

pub const CREATE_TRIGGERS: &'static str = "
    CREATE TRIGGER IF NOT EXISTS messages_ai AFTER INSERT ON messages BEGIN
        INSERT INTO messages_fts(rowid, content) VALUES (new.id, new.content);
    END;

    CREATE TRIGGER IF NOT EXISTS messages_ad AFTER DELETE ON messages BEGIN
        INSERT INTO messages_fts(messages_fts, rowid, content) VALUES('delete', old.id, old.content);
    END;

    CREATE TRIGGER IF NOT EXISTS messages_au AFTER UPDATE ON messages BEGIN
        INSERT INTO messages_fts(messages_fts, rowid, content) VALUES('delete', old.id, old.content);
        INSERT INTO messages_fts(rowid, content) VALUES (new.id, new.content);
    END;
    ";

/// Whether the full-text index that was created by `sql` reduces words to their
/// stems.
pub open spec fn stems(sql: Seq<char>) -> bool {
    contains(sql, "porter"@)
}

/// Whether the schema is current: the sessions are there, and the full-text index
/// reduces words to their stems.
pub open spec fn current_schema(has_sessions: i64, fts_sql: Option<Seq<char>>) -> bool {
    &&& has_sessions == 1
    &&& fts_sql is Some
    &&& stems(fts_sql->0)
}

/// Checks if the schema is current: the sessions are there, and the full-text index
/// reduces words to their stems.
pub fn schema_is_current(has_sessions: i64, fts_sql: Option<&str>) -> (current: bool)
    ensures
        current == current_schema(has_sessions, fts_sql.deep_view()),
{
    match fts_sql {
        Some(sql) => has_sessions == 1 && has(sql, "porter"),
        None => false,
    }
}

/// How far the opening of a vault has come.
#[verifier::ext_equal]
pub enum OpenModel {
    /// Waiting for the file to be opened, as a replica of `url` where there is one.
    Opening { path: Seq<char>, url: Option<Seq<char>> },
    /// Waiting for the connection.
    Connecting { synced: bool },
    /// Waiting for the latest state from the sync server.
    Pulling,
    /// Waiting for the settings of a local database.
    Configuring,
    /// Waiting for what the schema looks like.
    CheckingSchema { synced: bool },
    /// Waiting for the tables to be created.
    CreatingTables { synced: bool },
    /// Waiting for whether there is a full-text index.
    LookingForIndex { synced: bool },
    /// Waiting for how the full-text index was created.
    ReadingIndex { synced: bool },
    /// Waiting for the old full-text index to be dropped.
    DroppingIndex { synced: bool },
    /// Waiting for the full-text index to be created.
    CreatingIndex { synced: bool, rebuild: bool },
    /// Waiting for the full-text index to be filled from the messages.
    RebuildingIndex { synced: bool },
    /// Waiting for the triggers that keep the index up to date.
    CreatingTriggers { synced: bool },
}

/// Opening a vault.
pub enum OpenVault {
    Opening { path: String, url: Option<String> },
    Connecting { synced: bool },
    Pulling,
    Configuring,
    CheckingSchema { synced: bool },
    CreatingTables { synced: bool },
    LookingForIndex { synced: bool },
    ReadingIndex { synced: bool },
    DroppingIndex { synced: bool },
    CreatingIndex { synced: bool, rebuild: bool },
    RebuildingIndex { synced: bool },
    CreatingTriggers { synced: bool },
}

impl DeepView for OpenVault {
    type V = OpenModel;

    open spec fn deep_view(&self) -> OpenModel {
        match self {
            OpenVault::Opening { path, url } => OpenModel::Opening {
                path: path@,
                url: url.deep_view(),
            },
            OpenVault::Connecting { synced } => OpenModel::Connecting { synced: *synced },
            OpenVault::Pulling => OpenModel::Pulling,
            OpenVault::Configuring => OpenModel::Configuring,
            OpenVault::CheckingSchema { synced } => OpenModel::CheckingSchema { synced: *synced },
            OpenVault::CreatingTables { synced } => OpenModel::CreatingTables { synced: *synced },
            OpenVault::LookingForIndex { synced } => OpenModel::LookingForIndex {
                synced: *synced,
            },
            OpenVault::ReadingIndex { synced } => OpenModel::ReadingIndex { synced: *synced },
            OpenVault::DroppingIndex { synced } => OpenModel::DroppingIndex { synced: *synced },
            OpenVault::CreatingIndex { synced, rebuild } => OpenModel::CreatingIndex {
                synced: *synced,
                rebuild: *rebuild,
            },
            OpenVault::RebuildingIndex { synced } => OpenModel::RebuildingIndex {
                synced: *synced,
            },
            OpenVault::CreatingTriggers { synced } => OpenModel::CreatingTriggers {
                synced: *synced,
            },
        }
    }
}

/// The request to open the database file.
pub open spec fn open_request(sync: Option<SyncOptionsModel>) -> RequestModel {
    match sync {
        Some(options) => RequestModel::OpenSynced {
            url: options.url,
            auth_token: match options.auth_token {
                Some(token) => token,
                None => Seq::<char>::empty(),
            },
        },
        None => RequestModel::OpenLocal,
    }
}

/// The first step of opening a vault.
pub open spec fn opening<E>(path: Seq<char>, sync: Option<SyncOptionsModel>) -> StepModel<
    OpenModel,
    VaultModel,
    E,
> {
    StepModel::ask(
        OpenModel::Opening {
            path,
            url: match sync {
                Some(options) => Some(options.url),
                None => None,
            },
        },
        open_request(sync),
    )
}

/// Opens the vault in the file `path`, as a replica of a synced database where `sync`
/// says so.
pub fn open_vault<E>(path: &str, sync: Option<SyncOptions>) -> (step: Step<OpenVault, Vault, E>)
    ensures
        step.deep_view() == opening::<E>(path@, sync.deep_view()),
{
    match sync {
        Some(options) => {
            let auth_token = match options.auth_token {
                Some(token) => token,
                None => String::new(),
            };
            ask(
                OpenVault::Opening { path: path.to_string(), url: Some(options.url.clone()) },
                Request::OpenSynced { url: options.url, auth_token },
            )
        },
        None => ask(
            OpenVault::Opening { path: path.to_string(), url: None },
            Request::OpenLocal,
        ),
    }
}

/// The request to run the statements `sql`.
pub open spec fn batch(sql: Seq<char>) -> RequestModel {
    RequestModel::Batch { sql }
}

/// The request for what the schema looks like.
pub open spec fn fetch_schema() -> RequestModel {
    RequestModel::FetchFirst {
        statement: StatementModel { sql: SELECT_SCHEMA@, params: seq![] },
        columns: seq![Column::Integer, Column::OptionalText],
    }
}

/// The request for how the full-text index was created.
pub open spec fn fetch_index() -> RequestModel {
    RequestModel::FetchFirst {
        statement: StatementModel { sql: SELECT_INDEX@, params: seq![] },
        columns: seq![Column::Text],
    }
}

/// Asks to run the statements `sql`.
fn ask_batch<E>(task: OpenVault, sql: &str) -> (step: Step<OpenVault, Vault, E>)
    ensures
        step.deep_view() == StepModel::<OpenModel, VaultModel, E>::ask(
            task.deep_view(),
            batch(sql@),
        ),
{
    ask(task, Request::Batch { sql: sql.to_string() })
}

/// Asks for what the schema looks like.
fn schema_request() -> (request: Request)
    ensures
        request.deep_view() == fetch_schema(),
{
    let params: Vec<Value> = Vec::new();
    let columns: Vec<Column> = vec![Column::Integer, Column::OptionalText];
    assert(params.deep_view() =~= seq![]);
    assert(columns.deep_view() =~= seq![Column::Integer, Column::OptionalText]);
    let statement = Statement { sql: SELECT_SCHEMA.to_string(), params };
    Request::FetchFirst { statement, columns }
}

/// Asks for how the full-text index was created.
fn index_request() -> (request: Request)
    ensures
        request.deep_view() == fetch_index(),
{
    let params: Vec<Value> = Vec::new();
    let columns: Vec<Column> = vec![Column::Text];
    assert(params.deep_view() =~= seq![]);
    assert(columns.deep_view() =~= seq![Column::Text]);
    let statement = Statement { sql: SELECT_INDEX.to_string(), params };
    Request::FetchFirst { statement, columns }
}

/// What a reply to [`SELECT_SCHEMA`] says of the schema.
pub open spec fn schema_in<E>(reply: ReplyModel<E>) -> Result<bool, ErrorModel<E>> {
    match first_row(reply) {
        Ok(row) => match (integer_at(row, 0), optional_text_at(row, 1)) {
            (Some(has_sessions), Some(fts_sql)) => Ok(current_schema(has_sessions, fts_sql)),
            _ => Err(ErrorModel::MalformedRow),
        },
        Err(error) => Err(error),
    }
}

/// Reads whether the schema is current.
fn read_schema<E>(reply: Reply<E>) -> (current: Result<bool, VaultError<E>>)
    ensures
        outcome(current) == schema_in(reply.deep_view()),
{
    match query_row(reply) {
        Ok(row) => match (read_integer(&row, 0), read_optional_text(&row, 1)) {
            (Some(has_sessions), Some(Some(sql))) => Ok(
                schema_is_current(has_sessions, Some(sql.as_str())),
            ),
            (Some(has_sessions), Some(None)) => Ok(schema_is_current(has_sessions, None)),
            _ => Err(VaultError::MalformedRow),
        },
        Err(error) => Err(error),
    }
}

/// What a reply to [`SELECT_INDEX`] says of the full-text index.
pub open spec fn index_in<E>(reply: ReplyModel<E>) -> Result<bool, ErrorModel<E>> {
    match first_row(reply) {
        Ok(row) => match text_at(row, 0) {
            Some(sql) => Ok(stems(sql)),
            None => Err(ErrorModel::MalformedRow),
        },
        Err(error) => Err(error),
    }
}

/// Reads whether the full-text index reduces words to their stems.
fn read_index<E>(reply: Reply<E>) -> (stemming: Result<bool, VaultError<E>>)
    ensures
        outcome(stemming) == index_in(reply.deep_view()),
{
    match query_row(reply) {
        Ok(row) => match read_text(&row, 0) {
            Some(sql) => Ok(has(sql.as_str(), "porter")),
            None => Err(VaultError::MalformedRow),
        },
        Err(error) => Err(error),
    }
}

/// The step that follows where the connection is there: a synced vault pulls the
/// latest state, a local one is configured.
pub open spec fn connected<E>(synced: bool) -> StepModel<OpenModel, VaultModel, E> {
    if synced {
        StepModel::ask(OpenModel::Pulling, RequestModel::Sync)
    } else {
        StepModel::ask(OpenModel::Configuring, batch(CONFIGURE@))
    }
}

/// The step that asks for the schema.
pub open spec fn check_schema<E>(synced: bool) -> StepModel<OpenModel, VaultModel, E> {
    StepModel::ask(OpenModel::CheckingSchema { synced }, fetch_schema())
}

/// The step that creates the triggers.
pub open spec fn create_triggers<E>(synced: bool) -> StepModel<OpenModel, VaultModel, E> {
    StepModel::ask(OpenModel::CreatingTriggers { synced }, batch(CREATE_TRIGGERS@))
}

/// The step that creates the full-text index.
pub open spec fn create_index<E>(synced: bool, rebuild: bool) -> StepModel<
    OpenModel,
    VaultModel,
    E,
> {
    StepModel::ask(OpenModel::CreatingIndex { synced, rebuild }, batch(CREATE_INDEX@))
}

/// The first step of creating what is missing of the schema.
pub open spec fn initializing<E>(synced: bool) -> StepModel<OpenModel, VaultModel, E> {
    StepModel::ask(OpenModel::CreatingTables { synced }, batch(CREATE_TABLES@))
}

/// Starts to create what is missing of the schema.
pub fn init_schema<E>(synced: bool) -> (step: Step<OpenVault, Vault, E>)
    ensures
        step.deep_view() == initializing::<E>(synced),
{
    ask_batch(OpenVault::CreatingTables { synced }, CREATE_TABLES)
}

/// The step that follows on what is known of the full-text index: one that reduces
/// words to their stems stays, any other is dropped.
pub open spec fn keep_or_drop_index<E>(synced: bool, stemming: bool) -> StepModel<
    OpenModel,
    VaultModel,
    E,
> {
    if stemming {
        create_triggers(synced)
    } else {
        StepModel {
            lines: seq![LineModel::Notice("Migrating FTS index to Porter stemming tokenizer..."@)],
            next: NextModel::Ask(OpenModel::DroppingIndex { synced }, batch(DROP_INDEX@)),
        }
    }
}

/// Keeps a full-text index that reduces words to their stems, and starts to replace any
/// other.
fn keep_or_replace_index<E>(synced: bool, stemming: bool) -> (step: Step<OpenVault, Vault, E>)
    ensures
        step.deep_view() == keep_or_drop_index::<E>(synced, stemming),
{
    if stemming {
        ask_batch(OpenVault::CreatingTriggers { synced }, CREATE_TRIGGERS)
    } else {
        Step {
            lines: notice("Migrating FTS index to Porter stemming tokenizer..."),
            next: Next::Ask(
                OpenVault::DroppingIndex { synced },
                Request::Batch { sql: DROP_INDEX.to_string() },
            ),
        }
    }
}

/// The first step of migrating the full-text index.
pub open spec fn migrating<E>(synced: bool) -> StepModel<OpenModel, VaultModel, E> {
    StepModel::ask(OpenModel::LookingForIndex { synced }, fetch_count(INDEX_EXISTS@))
}

/// Ensures that the full-text index reduces words to their stems: creates one where there
/// is none, and replaces one that does not. The triggers are created next.
pub fn migrate_fts<E>(synced: bool) -> (step: Step<OpenVault, Vault, E>)
    ensures
        step.deep_view() == migrating::<E>(synced),
{
    ask(OpenVault::LookingForIndex { synced }, count_request(INDEX_EXISTS))
}

impl<E> Task<E> for OpenVault {
    type Output = Vault;

    open spec fn after(state: OpenModel, reply: ReplyModel<E>) -> StepModel<
        OpenModel,
        VaultModel,
        E,
    > {
        match state {
            OpenModel::Opening { path, url } => match (reply.failure, url) {
                (None, _) => StepModel::ask(
                    OpenModel::Connecting { synced: url is Some },
                    RequestModel::Connect,
                ),
                (Some(cause), Some(url)) => StepModel::finish(
                    Err(ErrorModel::OpenSyncedFailed { path, url, cause }),
                ),
                (Some(cause), None) => StepModel::finish(
                    Err(ErrorModel::OpenLocalFailed { path, cause }),
                ),
            },
            OpenModel::Connecting { synced } => match succeeded(reply) {
                Ok(_) => connected(synced),
                Err(error) => StepModel::finish(Err(error)),
            },
            OpenModel::Pulling => StepModel {
                lines: warning_of(
                    "Warning: could not sync with remote (using local replica): "@,
                    reply.failure,
                ),
                next: check_schema(true).next,
            },
            OpenModel::Configuring => match succeeded(reply) {
                Ok(_) => check_schema(false),
                Err(error) => StepModel::finish(Err(error)),
            },
            OpenModel::CheckingSchema { synced } => match schema_in(reply) {
                Ok(true) => StepModel::finish(Ok(VaultModel { sync_enabled: synced })),
                Ok(false) => initializing(synced),
                Err(error) => StepModel::finish(Err(error)),
            },
            OpenModel::CreatingTables { synced } => match succeeded(reply) {
                Ok(_) => migrating(synced),
                Err(error) => StepModel::finish(Err(error)),
            },
            OpenModel::LookingForIndex { synced } => match first_integer(reply) {
                Ok(exists) => if exists == 1 {
                    StepModel::ask(OpenModel::ReadingIndex { synced }, fetch_index())
                } else {
                    create_index(synced, false)
                },
                Err(error) => StepModel::finish(Err(error)),
            },
            OpenModel::ReadingIndex { synced } => match index_in(reply) {
                Ok(stemming) => keep_or_drop_index(synced, stemming),
                Err(error) => StepModel::finish(Err(error)),
            },
            OpenModel::DroppingIndex { synced } => match succeeded(reply) {
                Ok(_) => create_index(synced, true),
                Err(error) => StepModel::finish(Err(error)),
            },
            OpenModel::CreatingIndex { synced, rebuild } => match succeeded(reply) {
                Ok(_) => if rebuild {
                    StepModel::ask(OpenModel::RebuildingIndex { synced }, batch(REBUILD_INDEX@))
                } else {
                    create_triggers(synced)
                },
                Err(error) => StepModel::finish(Err(error)),
            },
            OpenModel::RebuildingIndex { synced } => match succeeded(reply) {
                Ok(_) => StepModel {
                    lines: seq![LineModel::Notice("FTS index rebuilt with Porter stemming."@)],
                    next: create_triggers(synced).next,
                },
                Err(error) => StepModel::finish(Err(error)),
            },
            OpenModel::CreatingTriggers { synced } => match succeeded(reply) {
                Ok(_) => StepModel::finish(Ok(VaultModel { sync_enabled: synced })),
                Err(error) => StepModel::finish(Err(error)),
            },
        }
    }

    fn resume(self, reply: Reply<E>) -> (step: Step<Self, Vault, E>) {
        match self {
            OpenVault::Opening { path, url } => match (reply.failure, url) {
                (None, Some(_)) => ask(OpenVault::Connecting { synced: true }, Request::Connect),
                (None, None) => ask(OpenVault::Connecting { synced: false }, Request::Connect),
                (Some(cause), Some(url)) => finish(
                    Err(VaultError::OpenSyncedFailed { path, url, cause }),
                ),
                (Some(cause), None) => finish(Err(VaultError::OpenLocalFailed { path, cause })),
            },
            OpenVault::Connecting { synced } => match count_of(reply) {
                Ok(_) => if synced {
                    ask(OpenVault::Pulling, Request::Sync)
                } else {
                    ask_batch(OpenVault::Configuring, CONFIGURE)
                },
                Err(error) => finish(Err(error)),
            },
            OpenVault::Pulling => {
                let lines = warn_of(
                    "Warning: could not sync with remote (using local replica): ",
                    reply.failure,
                );
                Step {
                    lines,
                    next: Next::Ask(OpenVault::CheckingSchema { synced: true }, schema_request()),
                }
            },
            OpenVault::Configuring => match count_of(reply) {
                Ok(_) => ask(OpenVault::CheckingSchema { synced: false }, schema_request()),
                Err(error) => finish(Err(error)),
            },
            OpenVault::CheckingSchema { synced } => match read_schema(reply) {
                Ok(true) => finish(Ok(Vault { sync_enabled: synced })),
                Ok(false) => init_schema(synced),
                Err(error) => finish(Err(error)),
            },
            OpenVault::CreatingTables { synced } => match count_of(reply) {
                Ok(_) => migrate_fts(synced),
                Err(error) => finish(Err(error)),
            },
            OpenVault::LookingForIndex { synced } => match query_integer(reply) {
                Ok(exists) => if exists == 1 {
                    ask(OpenVault::ReadingIndex { synced }, index_request())
                } else {
                    ask_batch(OpenVault::CreatingIndex { synced, rebuild: false }, CREATE_INDEX)
                },
                Err(error) => finish(Err(error)),
            },
            OpenVault::ReadingIndex { synced } => match read_index(reply) {
                Ok(stemming) => keep_or_replace_index(synced, stemming),
                Err(error) => finish(Err(error)),
            },
            OpenVault::DroppingIndex { synced } => match count_of(reply) {
                Ok(_) => ask_batch(
                    OpenVault::CreatingIndex { synced, rebuild: true },
                    CREATE_INDEX,
                ),
                Err(error) => finish(Err(error)),
            },
            OpenVault::CreatingIndex { synced, rebuild } => match count_of(reply) {
                Ok(_) => if rebuild {
                    ask_batch(OpenVault::RebuildingIndex { synced }, REBUILD_INDEX)
                } else {
                    ask_batch(OpenVault::CreatingTriggers { synced }, CREATE_TRIGGERS)
                },
                Err(error) => finish(Err(error)),
            },
            OpenVault::RebuildingIndex { synced } => match count_of(reply) {
                Ok(_) => Step {
                    lines: notice("FTS index rebuilt with Porter stemming."),
                    next: Next::Ask(
                        OpenVault::CreatingTriggers { synced },
                        Request::Batch { sql: CREATE_TRIGGERS.to_string() },
                    ),
                },
                Err(error) => finish(Err(error)),
            },
            OpenVault::CreatingTriggers { synced } => match count_of(reply) {
                Ok(_) => finish(Ok(Vault { sync_enabled: synced })),
                Err(error) => finish(Err(error)),
            },
        }
    }
}

/// Whether the vault that is being opened has a sync server.
pub open spec fn synced_in(state: OpenModel) -> bool {
    match state {
        OpenModel::Opening { url, .. } => url is Some,
        OpenModel::Connecting { synced } => synced,
        OpenModel::Pulling => true,
        OpenModel::Configuring => false,
        OpenModel::CheckingSchema { synced } => synced,
        OpenModel::CreatingTables { synced } => synced,
        OpenModel::LookingForIndex { synced } => synced,
        OpenModel::ReadingIndex { synced } => synced,
        OpenModel::DroppingIndex { synced } => synced,
        OpenModel::CreatingIndex { synced, .. } => synced,
        OpenModel::RebuildingIndex { synced } => synced,
        OpenModel::CreatingTriggers { synced } => synced,
    }
}

/// However the requests are answered from `state` on, whether the vault has a sync server
/// does not change.
proof fn lemma_opening_keeps_mode<E>(
    step: StepModel<OpenModel, VaultModel, E>,
    state: OpenModel,
    request: RequestModel,
    replies: Seq<ReplyModel<E>>,
)
    requires
        step.next == NextModel::<OpenModel, VaultModel, E>::Ask(state, request),
    ensures
        run::<OpenVault, E>(step, replies).next matches NextModel::Done(vault)
            ==> vault.sync_enabled == synced_in(state),
    decreases replies.len(),
{
    if replies.len() > 0 {
        let next = <OpenVault as Task<E>>::after(state, replies.first());
        match next.next {
            NextModel::Ask(following, asks) => {
                assert(synced_in(following) == synced_in(state));
                lemma_opening_keeps_mode(next, following, asks, replies.drop_first());
            },
            _ => {},
        }
    }
}

/// However the requests are answered, a vault that gets open has a sync server exactly
/// where it was opened with one.
pub proof fn law_vault_syncs_as_opened<E>(
    path: Seq<char>,
    sync: Option<SyncOptionsModel>,
    replies: Seq<ReplyModel<E>>,
)
    ensures
        run::<OpenVault, E>(opening::<E>(path, sync), replies).next matches NextModel::Done(vault)
            ==> vault.sync_enabled == (sync is Some),
{
    let start = opening::<E>(path, sync);
    lemma_opening_keeps_mode(start, start.next->Ask_0, start.next->Ask_1, replies);
}

/// Whether the first replies of an opening let it go on to the schema. The sync server of
/// a synced vault may be out of reach.
pub open spec fn reaches_schema<E>(
    sync: Option<SyncOptionsModel>,
    replies: Seq<ReplyModel<E>>,
) -> bool {
    &&& replies.len() > 3
    &&& replies[0].failure is None
    &&& replies[1].failure is None
    &&& sync is None ==> replies[2].failure is None
}

/// What an opening asks for until it knows the schema.
pub open spec fn until_schema(sync: Option<SyncOptionsModel>) -> Seq<RequestModel> {
    seq![
        open_request(sync),
        RequestModel::Connect,
        if sync is Some {
            RequestModel::Sync
        } else {
            batch(CONFIGURE@)
        },
        fetch_schema(),
    ]
}

/// An opening that reaches the schema goes on with what the reply says of it.
proof fn lemma_opening_reaches_schema<E>(
    path: Seq<char>,
    sync: Option<SyncOptionsModel>,
    replies: Seq<ReplyModel<E>>,
)
    requires
        reaches_schema(sync, replies),
    ensures
        ({
            let start = opening::<E>(path, sync);
            let next = <OpenVault as Task<E>>::after(
                OpenModel::CheckingSchema { synced: sync is Some },
                replies[3],
            );
            &&& run::<OpenVault, E>(start, replies) == run::<OpenVault, E>(next, replies.skip(4))
            &&& asked::<OpenVault, E>(start, replies) == until_schema(sync) + asked::<
                OpenVault,
                E,
            >(next, replies.skip(4))
        }),
{
    let start = opening::<E>(path, sync);
    let s1 = <OpenVault as Task<E>>::after(start.next->Ask_0, replies[0]);
    let s2 = <OpenVault as Task<E>>::after(s1.next->Ask_0, replies[1]);
    let s3 = <OpenVault as Task<E>>::after(s2.next->Ask_0, replies[2]);
    let s4 = <OpenVault as Task<E>>::after(s3.next->Ask_0, replies[3]);
    lemma_run_at::<OpenVault, E>(start, replies, 0);
    lemma_run_at::<OpenVault, E>(s1, replies, 1);
    lemma_run_at::<OpenVault, E>(s2, replies, 2);
    lemma_run_at::<OpenVault, E>(s3, replies, 3);
    assert(replies.skip(0) =~= replies);
    assert(asked::<OpenVault, E>(start, replies) =~= until_schema(sync) + asked::<OpenVault, E>(
        s4,
        replies.skip(4),
    ));
}

/// Opening a vault whose schema is current runs no statement that changes it.
pub proof fn law_current_schema_is_left_alone<E>(
    path: Seq<char>,
    sync: Option<SyncOptionsModel>,
    replies: Seq<ReplyModel<E>>,
)
    requires
        reaches_schema(sync, replies),
        schema_in(replies[3]) == Ok::<bool, ErrorModel<E>>(true),
    ensures
        asked::<OpenVault, E>(opening::<E>(path, sync), replies) == until_schema(sync),
        run::<OpenVault, E>(opening::<E>(path, sync), replies).next == NextModel::<
            OpenModel,
            VaultModel,
            E,
        >::Done(VaultModel { sync_enabled: sync is Some }),
{
    lemma_opening_reaches_schema(path, sync, replies);
    assert(asked::<OpenVault, E>(opening::<E>(path, sync), replies) =~= until_schema(sync));
}

/// Whether or not the sync server can be reached, the opening of a synced vault goes on
/// in the same way; where it cannot be reached, the user is warned.
pub proof fn law_offline_opening_goes_on<E>(reply: ReplyModel<E>)
    ensures
        <OpenVault as Task<E>>::after(OpenModel::Pulling, reply).next == check_schema::<E>(
            true,
        ).next,
        reply.failure is Some <==> <OpenVault as Task<E>>::after(
            OpenModel::Pulling,
            reply,
        ).lines.len() > 0,
{
}

/// Where the schema is not current and there is no full-text index, the tables, the
/// index and the triggers are created, in this order.
pub proof fn law_missing_schema_is_created<E>(
    path: Seq<char>,
    sync: Option<SyncOptionsModel>,
    replies: Seq<ReplyModel<E>>,
)
    requires
        replies.len() == 8,
        reaches_schema(sync, replies),
        schema_in(replies[3]) == Ok::<bool, ErrorModel<E>>(false),
        replies[4].failure is None,
        first_integer(replies[5]) matches Ok(n) && n != 1,
        replies[6].failure is None,
        replies[7].failure is None,
    ensures
        asked::<OpenVault, E>(opening::<E>(path, sync), replies) == until_schema(sync) + seq![
            batch(CREATE_TABLES@),
            fetch_count(INDEX_EXISTS@),
            batch(CREATE_INDEX@),
            batch(CREATE_TRIGGERS@),
        ],
        run::<OpenVault, E>(opening::<E>(path, sync), replies).next == NextModel::<
            OpenModel,
            VaultModel,
            E,
        >::Done(VaultModel { sync_enabled: sync is Some }),
{
    lemma_opening_reaches_schema(path, sync, replies);
    let s4 = <OpenVault as Task<E>>::after(
        OpenModel::CheckingSchema { synced: sync is Some },
        replies[3],
    );
    let s5 = <OpenVault as Task<E>>::after(s4.next->Ask_0, replies[4]);
    let s6 = <OpenVault as Task<E>>::after(s5.next->Ask_0, replies[5]);
    let s7 = <OpenVault as Task<E>>::after(s6.next->Ask_0, replies[6]);
    lemma_run_at::<OpenVault, E>(s4, replies, 4);
    lemma_run_at::<OpenVault, E>(s5, replies, 5);
    lemma_run_at::<OpenVault, E>(s6, replies, 6);
    lemma_run_at::<OpenVault, E>(s7, replies, 7);
    assert(asked::<OpenVault, E>(s4, replies.skip(4)) =~= seq![
        batch(CREATE_TABLES@),
        fetch_count(INDEX_EXISTS@),
        batch(CREATE_INDEX@),
        batch(CREATE_TRIGGERS@),
    ]);
}

/// A full-text index that does not reduce words to their stems is dropped, created
/// anew and filled from the messages.
pub proof fn law_old_index_is_replaced<E>(
    path: Seq<char>,
    sync: Option<SyncOptionsModel>,
    replies: Seq<ReplyModel<E>>,
)
    requires
        replies.len() == 11,
        reaches_schema(sync, replies),
        schema_in(replies[3]) == Ok::<bool, ErrorModel<E>>(false),
        replies[4].failure is None,
        first_integer(replies[5]) == Ok::<i64, ErrorModel<E>>(1),
        index_in(replies[6]) == Ok::<bool, ErrorModel<E>>(false),
        replies[7].failure is None,
        replies[8].failure is None,
        replies[9].failure is None,
        replies[10].failure is None,
    ensures
        asked::<OpenVault, E>(opening::<E>(path, sync), replies) == until_schema(sync) + seq![
            batch(CREATE_TABLES@),
            fetch_count(INDEX_EXISTS@),
            fetch_index(),
            batch(DROP_INDEX@),
            batch(CREATE_INDEX@),
            batch(REBUILD_INDEX@),
            batch(CREATE_TRIGGERS@),
        ],
        run::<OpenVault, E>(opening::<E>(path, sync), replies).next == NextModel::<
            OpenModel,
            VaultModel,
            E,
        >::Done(VaultModel { sync_enabled: sync is Some }),
{
    lemma_opening_reaches_schema(path, sync, replies);
    let s4 = <OpenVault as Task<E>>::after(
        OpenModel::CheckingSchema { synced: sync is Some },
        replies[3],
    );
    let s5 = <OpenVault as Task<E>>::after(s4.next->Ask_0, replies[4]);
    let s6 = <OpenVault as Task<E>>::after(s5.next->Ask_0, replies[5]);
    let s7 = <OpenVault as Task<E>>::after(s6.next->Ask_0, replies[6]);
    let s8 = <OpenVault as Task<E>>::after(s7.next->Ask_0, replies[7]);
    let s9 = <OpenVault as Task<E>>::after(s8.next->Ask_0, replies[8]);
    let s10 = <OpenVault as Task<E>>::after(s9.next->Ask_0, replies[9]);
    lemma_run_at::<OpenVault, E>(s4, replies, 4);
    lemma_run_at::<OpenVault, E>(s5, replies, 5);
    lemma_run_at::<OpenVault, E>(s6, replies, 6);
    lemma_run_at::<OpenVault, E>(s7, replies, 7);
    lemma_run_at::<OpenVault, E>(s8, replies, 8);
    lemma_run_at::<OpenVault, E>(s9, replies, 9);
    lemma_run_at::<OpenVault, E>(s10, replies, 10);
    assert(asked::<OpenVault, E>(s4, replies.skip(4)) =~= seq![
        batch(CREATE_TABLES@),
        fetch_count(INDEX_EXISTS@),
        fetch_index(),
        batch(DROP_INDEX@),
        batch(CREATE_INDEX@),
        batch(REBUILD_INDEX@),
        batch(CREATE_TRIGGERS@),
    ]);
}

/// The schema that is created is current, so that the next opening leaves it alone:
/// whatever text holds the statement that creates the full-text index, as far as the
/// name of its tokenizer, is recognized.
pub proof fn law_created_schema_is_current(fts_sql: Seq<char>)
    requires
        contains(fts_sql, TOKENIZER@),
    ensures
        contains(CREATE_INDEX@, TOKENIZER@),
        current_schema(1, Some(fts_sql)),
{
    reveal_strlit("CREATE VIRTUAL TABLE messages_fts USING fts5(content, content_rowid='id', content='messages', tokenize='porter unicode61');");
    reveal_strlit("tokenize='porter unicode61'");
    reveal_strlit("porter");
    assert(CREATE_INDEX@.subrange(94, 121) =~= TOKENIZER@);
    assert(occurs_at(CREATE_INDEX@, TOKENIZER@, 94));
    let i = choose|i: int| occurs_at(fts_sql, TOKENIZER@, i);
    let clause = fts_sql.subrange(i, i + 27);
    assert(fts_sql.subrange(i + 10, i + 16) =~= clause.subrange(10, 16));
    assert(clause.subrange(10, 16) =~= "porter"@);
    assert(occurs_at(fts_sql, "porter"@, i + 10));
}

/// A sync after writes never fails: what goes wrong is only told.
pub proof fn law_sync_after_write_never_fails<E>(reply: ReplyModel<E>)
    ensures
        <SyncAfterWrite as Task<E>>::after((), reply).next == NextModel::<(), (), E>::Done(()),
{
}

} // verus!
