//! What a step does with a reply: failures, lines and errors.
use vstd::prelude::*;
use crate::error::{error_message, ErrorModel};
use crate::messages::FetchMessages;
use crate::report::{Verify, VerifyModel};
use crate::sessions::{
    texts_in, ListModel, ListSessions, NthRecentSessionId, ResolveSessionId,
};
use crate::store::{DeleteModel, DeleteSession, InsertMessage, Stats, UpsertSession};
use crate::tables::nullable;
use crate::task::{
    text_at, Column, LineModel, NextModel, ReplyModel, RequestModel, StatementModel, StepModel,
    Task, ValueModel,
};
use crate::text::{contains, decimal, join, starts_like};
use crate::vault::{
    current_schema, initializing, migrating, opening, syncing, syncing_after_write, OpenModel,
    OpenVault, SyncAfterWrite, SyncOptionsModel, SyncVault, VaultModel,
};

verus! {

/// Whether a step prints nothing and ends with the database's own error.
pub open spec fn fails_with<S, T, E>(step: StepModel<S, T, E>, cause: E) -> bool {
    &&& step.lines == Seq::<LineModel<E>>::empty()
    &&& step.next == NextModel::<S, T, E>::Failed(ErrorModel::Database { cause })
}

/// A request of any operation that fails ends the operation, which hands on the error of the
/// database, unchanged. The opening of the file and the pull from the sync server are told
/// apart: see the laws on these.
pub proof fn law_failures_are_handed_on<E>(
    reply: ReplyModel<E>,
    cause: E,
    sessions: Option<i64>,
    deletion: DeleteModel,
    prefix: Seq<char>,
    n: usize,
    list: ListModel,
    check: VerifyModel,
    open: OpenModel,
)
    requires
        reply.failure == Some(cause),
        reply.rows.len() == 0,
    ensures
        fails_with(<UpsertSession as Task<E>>::after((), reply), cause),
        fails_with(<InsertMessage as Task<E>>::after((), reply), cause),
        fails_with(<Stats as Task<E>>::after(sessions, reply), cause),
        fails_with(<DeleteSession as Task<E>>::after(deletion, reply), cause),
        fails_with(<FetchMessages as Task<E>>::after((), reply), cause),
        fails_with(<ResolveSessionId as Task<E>>::after(prefix, reply), cause),
        fails_with(<NthRecentSessionId as Task<E>>::after(n, reply), cause),
        fails_with(<ListSessions as Task<E>>::after(list, reply), cause),
        fails_with(<Verify as Task<E>>::after(check, reply), cause),
        !(open is Opening) && !(open is Pulling) ==> fails_with(
            <OpenVault as Task<E>>::after(open, reply),
            cause,
        ),
{
}

/// The operations that store, read, list and delete print nothing.
pub proof fn law_quiet_operations<E>(
    reply: ReplyModel<E>,
    sessions: Option<i64>,
    deletion: DeleteModel,
    prefix: Seq<char>,
    n: usize,
    list: ListModel,
)
    ensures
        <UpsertSession as Task<E>>::after((), reply).lines == Seq::<LineModel<E>>::empty(),
        <InsertMessage as Task<E>>::after((), reply).lines == Seq::<LineModel<E>>::empty(),
        <Stats as Task<E>>::after(sessions, reply).lines == Seq::<LineModel<E>>::empty(),
        <DeleteSession as Task<E>>::after(deletion, reply).lines == Seq::<LineModel<E>>::empty(),
        <FetchMessages as Task<E>>::after((), reply).lines == Seq::<LineModel<E>>::empty(),
        <ResolveSessionId as Task<E>>::after(prefix, reply).lines == Seq::<LineModel<E>>::empty(),
        <NthRecentSessionId as Task<E>>::after(n, reply).lines == Seq::<LineModel<E>>::empty(),
        <ListSessions as Task<E>>::after(list, reply).lines == Seq::<LineModel<E>>::empty(),
{
}

/// A plain step prints nothing, and asks or ends as it says.
pub proof fn law_plain_steps<S, T, E>(
    state: S,
    request: RequestModel,
    value: T,
    error: ErrorModel<E>,
)
    ensures
        StepModel::<S, T, E>::ask(state, request) == (StepModel::<S, T, E> {
            lines: seq![],
            next: NextModel::Ask(state, request),
        }),
        StepModel::<S, T, E>::finish(Ok(value)) == (StepModel::<S, T, E> {
            lines: seq![],
            next: NextModel::Done(value),
        }),
        StepModel::<S, T, E>::finish(Err(error)) == (StepModel::<S, T, E> {
            lines: seq![],
            next: NextModel::Failed(error),
        }),
{
}

/// A local vault does not sync: a sync that is asked for is refused, one after writes is
/// left out. A synced vault asks for the sync in both.
pub proof fn law_only_synced_vaults_sync<E>()
    ensures
        syncing::<E>(false).next == NextModel::<(), u64, E>::Failed(ErrorModel::SyncDisabled),
        syncing_after_write::<E>(false).next == NextModel::<(), (), E>::Done(()),
        syncing::<E>(true).next == NextModel::<(), u64, E>::Ask((), RequestModel::Sync),
        syncing_after_write::<E>(true).next == NextModel::<(), (), E>::Ask(
            (),
            RequestModel::Sync,
        ),
        syncing::<E>(false).lines.len() == 0,
        syncing::<E>(true).lines.len() == 0,
        syncing_after_write::<E>(false).lines.len() == 0,
        syncing_after_write::<E>(true).lines.len() == 0,
{
}

/// A sync gives the number of frames that the reply counts, or the reply's own failure; after
/// writes such a failure is a warning, and there is none without it.
pub proof fn law_sync_tells_its_reply<E>(reply: ReplyModel<E>)
    ensures
        reply.failure is None ==> <SyncVault as Task<E>>::after((), reply).next == NextModel::<
            (),
            u64,
            E,
        >::Done(reply.count),
        reply.failure is Some ==> <SyncVault as Task<E>>::after((), reply).next == NextModel::<
            (),
            u64,
            E,
        >::Failed(ErrorModel::SyncFailed { cause: reply.failure->0 }),
        <SyncVault as Task<E>>::after((), reply).lines.len() == 0,
        <SyncAfterWrite as Task<E>>::after((), reply).next == NextModel::<(), (), E>::Done(()),
        reply.failure is None ==> <SyncAfterWrite as Task<E>>::after((), reply).lines == Seq::<
            LineModel<E>,
        >::empty(),
        reply.failure is Some ==> <SyncAfterWrite as Task<E>>::after((), reply).lines == seq![
            LineModel::<E>::Warning(
                "Warning: post-write sync failed (will catch up on next sync): "@,
                reply.failure->0,
            ),
        ],
{
}

/// A vault is opened as a replica exactly where there are options to sync, with their URL
/// and their token, or an empty one. Where the file cannot be opened, the error names it,
/// and the URL of a replica.
pub proof fn law_opening_a_file<E>(
    path: Seq<char>,
    sync: Option<SyncOptionsModel>,
    reply: ReplyModel<E>,
)
    ensures
        ({
            let start = opening::<E>(path, sync);
            let next = <OpenVault as Task<E>>::after(start.next->Ask_0, reply);
            &&& start.lines.len() == 0
            &&& start.next is Ask
            &&& next.lines.len() == 0
            &&& sync is None ==> start.next->Ask_1 == RequestModel::OpenLocal
            &&& sync matches Some(options) ==> {
                &&& options.auth_token matches Some(token) ==> start.next->Ask_1
                    == (RequestModel::OpenSynced { url: options.url, auth_token: token })
                &&& options.auth_token is None ==> start.next->Ask_1 == (RequestModel::OpenSynced {
                    url: options.url,
                    auth_token: seq![],
                })
            }
            &&& reply.failure is None ==> next.next is Ask && next.next->Ask_1
                == RequestModel::Connect
            &&& reply.failure is Some && sync is None ==> next.next == NextModel::<
                OpenModel,
                VaultModel,
                E,
            >::Failed(ErrorModel::OpenLocalFailed { path, cause: reply.failure->0 })
            &&& reply.failure is Some && sync is Some ==> next.next == NextModel::<
                OpenModel,
                VaultModel,
                E,
            >::Failed(
                ErrorModel::OpenSyncedFailed { path, url: sync->0.url, cause: reply.failure->0 },
            )
        }),
{
}

/// Once it is connected, a synced vault pulls the latest state and a local one is configured;
/// both then ask for the schema, however the pull goes.
pub proof fn law_opening_connects<E>(synced: bool, reply: ReplyModel<E>, second: ReplyModel<E>)
    requires
        reply.failure is None,
        second.failure is None || synced,
    ensures
        ({
            let next = <OpenVault as Task<E>>::after(OpenModel::Connecting { synced }, reply);
            let last = <OpenVault as Task<E>>::after(next.next->Ask_0, second);
            &&& next.next is Ask
            &&& synced ==> next.next->Ask_1 == RequestModel::Sync
            &&& !synced ==> next.next->Ask_1 == (RequestModel::Batch {
                sql: "PRAGMA journal_mode=WAL;
     PRAGMA busy_timeout=5000;
     PRAGMA foreign_keys=ON;"@,
            })
            &&& last.next == NextModel::<OpenModel, VaultModel, E>::Ask(
                OpenModel::CheckingSchema { synced },
                RequestModel::FetchFirst {
                    statement: StatementModel {
                        sql: "SELECT EXISTS(SELECT 1 FROM sqlite_master WHERE type='table' AND name='sessions'),
            (SELECT sql FROM sqlite_master WHERE type='table' AND name='messages_fts')"@,
                        params: seq![],
                    },
                    columns: seq![Column::Integer, Column::OptionalText],
                },
            )
        }),
{
}

/// A schema that is current is left as it is, and the vault is open; any other is completed,
/// starting with the tables.
pub proof fn law_schema_decides<E>(
    synced: bool,
    reply: ReplyModel<E>,
    has_sessions: i64,
    fts_sql: Option<Seq<char>>,
)
    requires
        reply.rows.len() > 0,
        reply.rows[0] == seq![ValueModel::Integer(has_sessions), nullable(fts_sql)],
    ensures
        ({
            let next = <OpenVault as Task<E>>::after(
                OpenModel::CheckingSchema { synced },
                reply,
            ).next;
            let current = has_sessions == 1 && fts_sql is Some && contains(
                fts_sql->0,
                "porter"@,
            );
            &&& current ==> next == NextModel::<OpenModel, VaultModel, E>::Done(
                VaultModel { sync_enabled: synced },
            )
            &&& !current ==> next == NextModel::<OpenModel, VaultModel, E>::Ask(
                OpenModel::CreatingTables { synced },
                RequestModel::Batch {
                    sql: "
    CREATE TABLE IF NOT EXISTS sessions (
        session_id TEXT PRIMARY KEY,
        project    TEXT NOT NULL,
        started_at TEXT,
        imported_at TEXT NOT NULL DEFAULT (datetime('now'))
    );

    CREATE TABLE IF NOT EXISTS messages (
        id         INTEGER PRIMARY KEY AUTOINCREMENT,
        session_id TEXT NOT NULL,
        uuid       TEXT,
        role       TEXT NOT NULL,
        content    TEXT NOT NULL,
        timestamp  TEXT,
        FOREIGN KEY (session_id) REFERENCES sessions(session_id)
    );

    CREATE UNIQUE INDEX IF NOT EXISTS idx_messages_uuid
        ON messages(uuid) WHERE uuid IS NOT NULL;
    "@,
                },
            )
        }),
{
}

/// Completing the schema starts with the tables, as it does in an opening, and migrating the
/// index with a look for it.
pub proof fn law_schema_starts<E>(synced: bool, schema: ReplyModel<E>, tables: ReplyModel<E>)
    requires
        schema.rows == seq![seq![ValueModel::Integer(0), ValueModel::Null]],
        tables.failure is None,
    ensures
        initializing::<E>(synced).next == <OpenVault as Task<E>>::after(
            OpenModel::CheckingSchema { synced },
            schema,
        ).next,
        migrating::<E>(synced).next == <OpenVault as Task<E>>::after(
            OpenModel::CreatingTables { synced },
            tables,
        ).next,
        initializing::<E>(synced).lines.len() == 0,
        migrating::<E>(synced).lines.len() == 0,
{
}

/// The request to create the full-text index.
pub open spec fn index_creation() -> RequestModel {
    RequestModel::Batch {
        sql: "CREATE VIRTUAL TABLE messages_fts USING fts5(content, content_rowid='id', content='messages', tokenize='porter unicode61');"@,
    }
}

/// The request to create the triggers.
pub open spec fn trigger_creation() -> RequestModel {
    RequestModel::Batch {
        sql: "
    CREATE TRIGGER IF NOT EXISTS messages_ai AFTER INSERT ON messages BEGIN
        INSERT INTO messages_fts(rowid, content) VALUES (new.id, new.content);
    END;

    CREATE TRIGGER IF NOT EXISTS messages_ad AFTER DELETE ON messages BEGIN
        INSERT INTO messages_fts(messages_fts, rowid, content) VALUES('delete', old.id, old.content);
    END;

    CREATE TRIGGER IF NOT EXISTS messages_au AFTER UPDATE ON messages BEGIN
        INSERT INTO messages_fts(messages_fts, rowid, content) VALUES('delete', old.id, old.content);
        INSERT INTO messages_fts(rowid, content) VALUES (new.id, new.content);
    END;
    "@,
    }
}

/// The tables are followed by a look for the index. Where there is one, it is asked how it was
/// created; where there is none, it is created, and the triggers follow.
pub proof fn law_index_is_looked_for<E>(synced: bool, reply: ReplyModel<E>, n: i64)
    ensures
        reply.failure is None ==> <OpenVault as Task<E>>::after(
            OpenModel::CreatingTables { synced },
            reply,
        ).next == NextModel::<OpenModel, VaultModel, E>::Ask(
            OpenModel::LookingForIndex { synced },
            RequestModel::FetchFirst {
                statement: StatementModel {
                    sql: "SELECT EXISTS(SELECT 1 FROM sqlite_master WHERE type='table' AND name='messages_fts')"@,
                    params: seq![],
                },
                columns: seq![Column::Integer],
            },
        ),
        reply.rows == seq![seq![ValueModel::Integer(n)]] ==> <OpenVault as Task<E>>::after(
            OpenModel::LookingForIndex { synced },
            reply,
        ).next == if n == 1 {
            NextModel::<OpenModel, VaultModel, E>::Ask(
                OpenModel::ReadingIndex { synced },
                RequestModel::FetchFirst {
                    statement: StatementModel {
                        sql: "SELECT sql FROM sqlite_master WHERE type='table' AND name='messages_fts'"@,
                        params: seq![],
                    },
                    columns: seq![Column::Text],
                },
            )
        } else {
            NextModel::<OpenModel, VaultModel, E>::Ask(
                OpenModel::CreatingIndex { synced, rebuild: false },
                index_creation(),
            )
        },
        reply.failure is None ==> <OpenVault as Task<E>>::after(
            OpenModel::CreatingIndex { synced, rebuild: false },
            reply,
        ).next == NextModel::<OpenModel, VaultModel, E>::Ask(
            OpenModel::CreatingTriggers { synced },
            trigger_creation(),
        ),
        reply.failure is None ==> <OpenVault as Task<E>>::after(
            OpenModel::CreatingTriggers { synced },
            reply,
        ).next == NextModel::<OpenModel, VaultModel, E>::Done(VaultModel { sync_enabled: synced }),
{
}

/// An index whose creation names the stemming tokenizer is kept. Any other is dropped, created
/// anew and filled from the messages. Both are followed by the triggers.
pub proof fn law_index_is_kept_or_replaced<E>(synced: bool, reply: ReplyModel<E>, sql: Seq<char>)
    ensures
        reply.rows == seq![seq![ValueModel::Text(sql)]] ==> <OpenVault as Task<E>>::after(
            OpenModel::ReadingIndex { synced },
            reply,
        ).next == if contains(sql, "porter"@) {
            NextModel::<OpenModel, VaultModel, E>::Ask(
                OpenModel::CreatingTriggers { synced },
                trigger_creation(),
            )
        } else {
            NextModel::<OpenModel, VaultModel, E>::Ask(
                OpenModel::DroppingIndex { synced },
                RequestModel::Batch {
                    sql: "
    DROP TRIGGER IF EXISTS messages_ai;
    DROP TRIGGER IF EXISTS messages_ad;
    DROP TRIGGER IF EXISTS messages_au;
    DROP TABLE messages_fts;
    "@,
                },
            )
        },
        reply.failure is None ==> <OpenVault as Task<E>>::after(
            OpenModel::DroppingIndex { synced },
            reply,
        ).next == NextModel::<OpenModel, VaultModel, E>::Ask(
            OpenModel::CreatingIndex { synced, rebuild: true },
            index_creation(),
        ),
        reply.failure is None ==> <OpenVault as Task<E>>::after(
            OpenModel::CreatingIndex { synced, rebuild: true },
            reply,
        ).next == NextModel::<OpenModel, VaultModel, E>::Ask(
            OpenModel::RebuildingIndex { synced },
            RequestModel::Batch {
                sql: "INSERT INTO messages_fts(messages_fts) VALUES('rebuild')"@,
            },
        ),
        reply.failure is None ==> <OpenVault as Task<E>>::after(
            OpenModel::RebuildingIndex { synced },
            reply,
        ).next == NextModel::<OpenModel, VaultModel, E>::Ask(
            OpenModel::CreatingTriggers { synced },
            trigger_creation(),
        ),
{
}

/// An opening warns where the pull fails, tells of a migration where an index is to be
/// dropped and where it has been rebuilt, and prints nothing else.
pub proof fn law_opening_tells<E>(state: OpenModel, reply: ReplyModel<E>)
    ensures
        ({
            let next = <OpenVault as Task<E>>::after(state, reply);
            let drops = next.next is Ask && next.next->Ask_0 is DroppingIndex;
            let rebuilt = state is RebuildingIndex && next.next is Ask;
            &&& state is Pulling && reply.failure is Some ==> next.lines == seq![
                LineModel::<E>::Warning(
                    "Warning: could not sync with remote (using local replica): "@,
                    reply.failure->0,
                ),
            ]
            &&& drops ==> next.lines == seq![
                LineModel::<E>::Notice("Migrating FTS index to Porter stemming tokenizer..."@),
            ]
            &&& rebuilt ==> next.lines == seq![
                LineModel::<E>::Notice("FTS index rebuilt with Porter stemming."@),
            ]
            &&& !drops && !rebuilt && !(state is Pulling && reply.failure is Some)
                ==> next.lines == Seq::<LineModel<E>>::empty()
        }),
{
}

/// A schema is current exactly where the sessions are there and the statement that created
/// the full-text index holds the name of the stemming tokenizer.
pub proof fn law_current_schema(has_sessions: i64, fts_sql: Seq<char>)
    ensures
        !current_schema(has_sessions, None),
        current_schema(has_sessions, Some(fts_sql)) <==> has_sessions == 1 && contains(
            fts_sql,
            "porter"@,
        ),
{
}

/// A prefix that no identifier, or more than one, starts with is an error. It names the
/// prefix, and where there are several, their number and the first five.
pub proof fn law_unresolved_prefix<E>(prefix: Seq<char>, reply: ReplyModel<E>, ids: Seq<Seq<char>>)
    requires
        reply.failure is None,
        reply.rows == ids.map_values(|id: Seq<char>| seq![ValueModel::Text(id)]),
    ensures
        ({
            let kept = ids.filter(|id: Seq<char>| starts_like(id, prefix));
            let next = <ResolveSessionId as Task<E>>::after(prefix, reply).next;
            &&& kept.len() == 0 ==> next == NextModel::<Seq<char>, Seq<char>, E>::Failed(
                ErrorModel::NoSession { prefix },
            )
            &&& kept.len() == 1 ==> next == NextModel::<Seq<char>, Seq<char>, E>::Done(kept[0])
            &&& kept.len() > 1 ==> {
                &&& next matches NextModel::Failed(
                    ErrorModel::AmbiguousPrefix { prefix: named, count, previews },
                )
                &&& named == prefix
                &&& count == kept.len()
                &&& previews.len() == if count < 5 {
                    count as int
                } else {
                    5
                }
                &&& forall|i: int| 0 <= i < previews.len() ==> previews[i] == kept[i]
            }
        }),
{
    assert forall|i: int| 0 <= i < reply.rows.len() implies text_at(#[trigger] reply.rows[i], 0)
        == Some(ids[i]) by {}
    assert(texts_in(reply)->Ok_0 =~= ids);
}

/// What the user is told of each error.
pub proof fn law_error_messages<E>(
    cause: E,
    path: Seq<char>,
    url: Seq<char>,
    prefix: Seq<char>,
    n: nat,
    previews: Seq<Seq<char>>,
)
    ensures
        error_message(ErrorModel::<E>::Database { cause }) is None,
        error_message(ErrorModel::<E>::SyncDisabled) == Some(
            "Sync is not enabled. Pass --sync-url (or set CLAUDE_VAULT_SYNC_URL) to use a synced database."@,
        ),
        error_message(ErrorModel::<E>::SyncFailed { cause }) == Some(
            "Failed to sync with the remote database"@,
        ),
        error_message(ErrorModel::<E>::OpenSyncedFailed { path, url, cause }) == Some(
            "Failed to open synced database "@ + path + " (sync URL: "@ + url + ")"@,
        ),
        error_message(ErrorModel::<E>::OpenLocalFailed { path, cause }) == Some(
            "Failed to open database: "@ + path,
        ),
        error_message(ErrorModel::<E>::NoRows) == Some("Query returned no rows"@),
        error_message(ErrorModel::<E>::MalformedRow) == Some(
            "A row lacks a column that was asked for"@,
        ),
        error_message(ErrorModel::<E>::NoSession { prefix }) == Some(
            "No session found matching: "@ + prefix,
        ),
        error_message(ErrorModel::<E>::AmbiguousPrefix { prefix, count: n, previews }) == Some(
            "Ambiguous prefix '"@ + prefix + "' matches "@ + decimal(n) + " sessions:\n  "@ + join(
                previews,
                "\n  "@,
            ),
        ),
        error_message(ErrorModel::<E>::NoSessionAt { position: n }) == Some(
            "No session found at position "@ + decimal(n),
        ),
        error_message(ErrorModel::<E>::VerificationFailed) == Some("Verification failed"@),
{
}

} // verus!
