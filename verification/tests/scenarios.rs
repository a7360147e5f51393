//! The archive on a real database.
use std::path::Path;

use claude_vault::store::{COUNT_MESSAGES, COUNT_SESSIONS};
use claude_vault::vault::CREATE_INDEX;
use claude_vault::{
    delete_session, get_session_messages, insert_message, list_sessions, nth_recent_session_id,
    open_vault, resolve_session_id, search, stats, upsert_session, verify, Column, Line, Next,
    Reply, Request, SearchResult, SessionSummary, Statement, Step, SyncOptions, Task, Value, Vault,
    VaultError,
};
use libsql::{Builder, Connection, Database, Error};
use tempfile::TempDir;
use tokio::runtime::Runtime;

type Outcome<T> = Result<T, VaultError<Error>>;

fn runtime() -> Runtime {
    tokio::runtime::Builder::new_current_thread().build().unwrap()
}

fn reply(count: u64, failure: Option<Error>) -> Reply<Error> {
    Reply { count, rows: Vec::new(), failure }
}

fn counted(result: Result<u64, Error>) -> Reply<Error> {
    match result {
        Ok(count) => reply(count, None),
        Err(cause) => reply(0, Some(cause)),
    }
}

fn bound(params: Vec<Value>) -> Vec<libsql::Value> {
    params
        .into_iter()
        .map(|value| match value {
            Value::Null => libsql::Value::Null,
            Value::Integer(n) => libsql::Value::Integer(n),
            Value::Text(text) => libsql::Value::Text(text),
        })
        .collect()
}

fn read_row(row: &libsql::Row, columns: &[Column]) -> Result<Vec<Value>, Error> {
    let mut values = Vec::new();
    for (column, i) in columns.iter().zip(0..) {
        values.push(match column {
            Column::Text => Value::Text(row.get(i)?),
            Column::OptionalText => match row.get::<Option<String>>(i)? {
                Some(text) => Value::Text(text),
                None => Value::Null,
            },
            Column::Integer => Value::Integer(row.get(i)?),
        });
    }
    Ok(values)
}

async fn fetch(
    conn: &Connection,
    statement: Statement,
    columns: &[Column],
    most: usize,
) -> Reply<Error> {
    let mut read = Vec::new();
    let mut rows = match conn.query(&statement.sql, bound(statement.params)).await {
        Ok(rows) => rows,
        Err(cause) => return reply(0, Some(cause)),
    };
    let mut failure = None;
    while read.len() < most {
        match rows.next().await {
            Ok(Some(row)) => match read_row(&row, columns) {
                Ok(values) => read.push(values),
                Err(cause) => {
                    failure = Some(cause);
                    break;
                }
            },
            Ok(None) => break,
            Err(cause) => {
                failure = Some(cause);
                break;
            }
        }
    }
    Reply { count: 0, rows: read, failure }
}

/// A database file, open as far as the requests have asked for it.
#[derive(Default)]
struct Session {
    db: Option<Database>,
    conn: Option<Connection>,
    printed: Vec<String>,
    asked: usize,
}

impl Session {
    async fn answer(&mut self, path: &Path, request: Request) -> Reply<Error> {
        self.asked += 1;
        match request {
            Request::OpenLocal => match Builder::new_local(path).build().await {
                Ok(db) => {
                    self.db = Some(db);
                    reply(0, None)
                }
                Err(cause) => reply(0, Some(cause)),
            },
            Request::OpenSynced { url, auth_token } => {
                match Builder::new_remote_replica(path, url, auth_token).build().await {
                    Ok(db) => {
                        self.db = Some(db);
                        reply(0, None)
                    }
                    Err(cause) => reply(0, Some(cause)),
                }
            }
            Request::Connect => match self.db.as_ref().unwrap().connect() {
                Ok(conn) => {
                    self.conn = Some(conn);
                    reply(0, None)
                }
                Err(cause) => reply(0, Some(cause)),
            },
            Request::Sync => counted(
                self.db
                    .as_ref()
                    .unwrap()
                    .sync()
                    .await
                    .map(|replicated| replicated.frames_synced() as u64),
            ),
            Request::Batch { sql } => {
                counted(self.conn.as_ref().unwrap().execute_batch(&sql).await.map(|_| 0))
            }
            Request::Execute { statement } => counted(
                self.conn
                    .as_ref()
                    .unwrap()
                    .execute(&statement.sql, bound(statement.params))
                    .await,
            ),
            Request::FetchAll { statement, columns } => {
                fetch(self.conn.as_ref().unwrap(), statement, &columns, usize::MAX).await
            }
            Request::FetchFirst { statement, columns } => {
                fetch(self.conn.as_ref().unwrap(), statement, &columns, 1).await
            }
        }
    }

    async fn run<T: Task<Error>>(
        &mut self,
        path: &Path,
        mut step: Step<T, T::Output, Error>,
    ) -> Outcome<T::Output> {
        loop {
            for line in step.lines {
                self.printed.push(match line {
                    Line::Output(text) => text,
                    Line::Notice(text) => text,
                    Line::Warning(text, cause) => format!("{text}{cause:#}"),
                });
            }
            match step.next {
                Next::Ask(task, request) => step = task.resume(self.answer(path, request).await),
                Next::Done(value) => return Ok(value),
                Next::Failed(error) => return Err(error),
            }
        }
    }
}

/// An open archive.
struct Archive {
    runtime: Runtime,
    session: Session,
    vault: Vault,
}

impl Archive {
    fn open(path: &Path) -> Archive {
        let runtime = runtime();
        let mut session = Session::default();
        let start = open_vault(&path.display().to_string(), None);
        let vault = runtime.block_on(session.run(path, start)).unwrap();
        Archive { runtime, session, vault }
    }

    fn run<T: Task<Error>>(&mut self, step: Step<T, T::Output, Error>) -> Outcome<T::Output> {
        self.runtime.block_on(self.session.run(Path::new(""), step))
    }

    fn upsert(&mut self, session_id: &str, project: &str, started_at: Option<&str>) {
        self.run(upsert_session(session_id, project, started_at)).unwrap()
    }

    fn insert(
        &mut self,
        session_id: &str,
        uuid: Option<&str>,
        role: &str,
        content: &str,
        timestamp: Option<&str>,
    ) -> bool {
        self.run(insert_message(session_id, uuid, role, content, timestamp)).unwrap()
    }

    fn search(
        &mut self,
        query: &str,
        limit: usize,
        project: Option<&str>,
        role: Option<&str>,
        since: Option<&str>,
        until: Option<&str>,
    ) -> Vec<SearchResult> {
        self.run(search(query, limit, project, role, since, until)).unwrap()
    }

    fn stats(&mut self) -> (i64, i64) {
        self.run(stats()).unwrap()
    }

    fn list(
        &mut self,
        limit: usize,
        project: Option<&str>,
        since: Option<&str>,
        until: Option<&str>,
    ) -> Vec<SessionSummary> {
        self.run(list_sessions(limit, project, since, until)).unwrap()
    }

    fn text(&mut self, sql: &str) -> String {
        let conn = self.session.conn.clone().unwrap();
        self.runtime.block_on(async {
            let mut rows = conn.query(sql, ()).await.unwrap();
            rows.next().await.unwrap().unwrap().get::<String>(0).unwrap()
        })
    }

    fn batch(&mut self, sql: &str) {
        let conn = self.session.conn.clone().unwrap();
        self.runtime.block_on(async {
            conn.execute_batch(sql).await.unwrap();
        })
    }
}

fn setup_db() -> (Archive, TempDir) {
    let tmp = TempDir::new().unwrap();
    let archive = Archive::open(&tmp.path().join("test.db"));
    (archive, tmp)
}

#[test]
fn test_open_and_init() {
    let (_archive, _tmp) = setup_db();
}

#[test]
fn test_reopen_existing_db() {
    let tmp = TempDir::new().unwrap();
    let path = tmp.path().join("test.db");
    {
        let mut archive = Archive::open(&path);
        archive.upsert("s1", "proj", None);
    }
    // Second open must detect the existing schema and skip re-init
    let mut archive = Archive::open(&path);
    assert_eq!(archive.session.asked, 4);
    let (sessions, _) = archive.stats();
    assert_eq!(sessions, 1);
}

#[test]
fn test_upsert_session() {
    let (mut archive, _tmp) = setup_db();
    archive.upsert("sess-1", "my-project", Some("2024-01-01T00:00:00Z"));
    archive.upsert("sess-1", "my-project", None);

    let project = archive.text("SELECT project FROM sessions WHERE session_id = 'sess-1'");
    assert_eq!(project, "my-project");
}

#[test]
fn test_insert_and_search() {
    let (mut archive, _tmp) = setup_db();
    archive.upsert("sess-1", "proj", None);
    archive.insert(
        "sess-1",
        Some("u1"),
        "user",
        "hello world",
        Some("2024-01-01T00:00:00Z"),
    );
    archive.insert(
        "sess-1",
        Some("u2"),
        "assistant",
        "hi there",
        Some("2024-01-01T00:00:01Z"),
    );

    let results = archive.search("hello", 10, None, None, None, None);
    assert_eq!(results.len(), 1);
    assert_eq!(results[0].role, "user");
    assert_eq!(results[0].content, "hello world");
}

#[test]
fn test_porter_stemming() {
    let (mut archive, _tmp) = setup_db();
    archive.upsert("s1", "proj", None);
    archive.insert("s1", Some("u1"), "user", "the server is running fine", None);
    archive.insert("s1", Some("u2"), "user", "configure the database settings", None);

    // "run" should match "running" via stemming
    let results = archive.search("run", 10, None, None, None, None);
    assert_eq!(results.len(), 1);
    assert!(results[0].content.contains("running"));

    // "configuration" should match "configure" via stemming
    let results = archive.search("configuration", 10, None, None, None, None);
    assert_eq!(results.len(), 1);
    assert!(results[0].content.contains("configure"));
}

#[test]
fn test_duplicate_uuid_skipped() {
    let (mut archive, _tmp) = setup_db();
    archive.upsert("sess-1", "proj", None);
    let inserted = archive.insert("sess-1", Some("u1"), "user", "first", None);
    assert!(inserted);
    let inserted = archive.insert("sess-1", Some("u1"), "user", "duplicate", None);
    assert!(!inserted);

    let (_, msg_count) = archive.stats();
    assert_eq!(msg_count, 1);
}

#[test]
fn test_stats() {
    let (mut archive, _tmp) = setup_db();
    archive.upsert("s1", "p1", None);
    archive.upsert("s2", "p2", None);
    archive.insert("s1", Some("u1"), "user", "msg1", None);
    archive.insert("s1", Some("u2"), "assistant", "msg2", None);
    archive.insert("s2", Some("u3"), "user", "msg3", None);

    let (sessions, messages) = archive.stats();
    assert_eq!(sessions, 2);
    assert_eq!(messages, 3);
}

#[test]
fn test_search_no_results() {
    let (mut archive, _tmp) = setup_db();
    archive.upsert("s1", "proj", None);
    archive.insert("s1", Some("u1"), "user", "hello", None);

    let results = archive.search("nonexistent", 10, None, None, None, None);
    assert!(results.is_empty());
}

#[test]
fn test_search_with_date_filter() {
    let (mut archive, _tmp) = setup_db();
    archive.upsert("s1", "proj", None);
    archive.insert(
        "s1",
        Some("u1"),
        "user",
        "early message",
        Some("2024-01-01T00:00:00Z"),
    );
    archive.insert(
        "s1",
        Some("u2"),
        "user",
        "late message",
        Some("2024-06-01T00:00:00Z"),
    );

    let results = archive.search("message", 10, None, None, Some("2024-03-01"), None);
    assert_eq!(results.len(), 1);
    assert!(results[0].content.contains("late"));

    let results = archive.search("message", 10, None, None, None, Some("2024-03-01"));
    assert_eq!(results.len(), 1);
    assert!(results[0].content.contains("early"));
}

#[test]
fn test_search_empty_query() {
    let (mut archive, _tmp) = setup_db();
    archive.upsert("s1", "proj", None);
    archive.insert("s1", Some("u1"), "user", "hello", None);

    let results = archive.search("", 10, None, None, None, None);
    assert!(results.is_empty());

    let results = archive.search("   ", 10, None, None, None, None);
    assert!(results.is_empty());
}

#[test]
fn test_project_filter_with_slash() {
    let (mut archive, _tmp) = setup_db();
    archive.upsert("s1", "-home-user-ghq-github-com-owner-repo", None);
    archive.insert("s1", Some("u1"), "user", "test msg", None);

    // Filter with formatted name "owner/repo"
    let results = archive.search("test", 10, Some("owner/repo"), None, None, None);
    assert_eq!(results.len(), 1);

    // Filter with just "repo"
    let results = archive.search("test", 10, Some("repo"), None, None, None);
    assert_eq!(results.len(), 1);
}

#[test]
fn test_delete_session() {
    let (mut archive, _tmp) = setup_db();
    archive.upsert("s1", "proj", None);
    archive.insert("s1", Some("u1"), "user", "msg1", None);
    archive.insert("s1", Some("u2"), "assistant", "msg2", None);

    let deleted = archive.run(delete_session("s1")).unwrap();
    assert_eq!(deleted, 2);

    let (sessions, messages) = archive.stats();
    assert_eq!(sessions, 0);
    assert_eq!(messages, 0);
}

#[test]
fn test_list_sessions_with_date_filter() {
    let (mut archive, _tmp) = setup_db();
    archive.upsert("s1", "proj", Some("2024-01-15T00:00:00Z"));
    archive.upsert("s2", "proj", Some("2024-06-15T00:00:00Z"));
    archive.insert("s1", Some("u1"), "user", "old session", None);
    archive.insert("s2", Some("u2"), "user", "new session", None);

    let sessions = archive.list(100, None, Some("2024-03-01"), None);
    assert_eq!(sessions.len(), 1);
    assert_eq!(sessions[0].session_id, "s2");

    let sessions = archive.list(100, None, None, Some("2024-03-01"));
    assert_eq!(sessions.len(), 1);
    assert_eq!(sessions[0].session_id, "s1");
}

#[test]
fn test_insert_without_uuid() {
    let (mut archive, _tmp) = setup_db();
    archive.upsert("s1", "proj", None);
    let inserted = archive.insert("s1", None, "user", "msg1", None);
    assert!(inserted);
    // Without uuid, duplicate check is skipped, so second insert also succeeds
    let inserted = archive.insert("s1", None, "user", "msg2", None);
    assert!(inserted);

    let (_, count) = archive.stats();
    assert_eq!(count, 2);
}

#[test]
fn test_sync_disabled_on_local_vault() {
    let (mut archive, _tmp) = setup_db();
    assert!(!archive.vault.sync_enabled());
    let start = archive.vault.sync();
    assert!(archive.run(start).is_err());
}

#[test]
fn fresh_file_gets_the_whole_schema() {
    let (archive, _tmp) = setup_db();
    assert_eq!(archive.session.asked, 8);
    assert!(archive.session.printed.is_empty());
}

#[test]
fn old_index_is_migrated_and_keeps_its_messages() {
    let tmp = TempDir::new().unwrap();
    let path = tmp.path().join("old.db");
    {
        let mut archive = Archive::open(&path);
        archive.upsert("s1", "proj", None);
        archive.insert("s1", Some("u1"), "user", "the server is running fine", None);
        archive.batch(
            "DROP TRIGGER messages_ai; DROP TRIGGER messages_ad; DROP TRIGGER messages_au;
             DROP TABLE messages_fts;
             CREATE VIRTUAL TABLE messages_fts USING fts5(
                 content, content_rowid='id', content='messages', tokenize='unicode61');
             INSERT INTO messages_fts(messages_fts) VALUES('rebuild');",
        );
        assert!(archive.search("run", 10, None, None, None, None).is_empty());
    }
    let mut archive = Archive::open(&path);
    assert_eq!(
        archive.session.printed,
        [
            "Migrating FTS index to Porter stemming tokenizer...",
            "FTS index rebuilt with Porter stemming.",
        ]
    );
    assert_eq!(archive.search("run", 10, None, None, None, None).len(), 1);
    // The triggers are back: what is stored now is found too.
    archive.insert("s1", Some("u2"), "user", "runs again", None);
    assert_eq!(archive.search("run", 10, None, None, None, None).len(), 2);
}

#[test]
fn stored_messages_read_back_in_their_order() {
    let (mut archive, _tmp) = setup_db();
    archive.upsert("s1", "proj", None);
    archive.insert("s1", Some("u1"), "user", "first", Some("2024-01-01T00:00:00Z"));
    archive.insert("s1", None, "assistant", "second", None);
    archive.upsert("s2", "other", None);
    archive.insert("s2", None, "user", "elsewhere", None);
    let messages = archive.run(get_session_messages("s1")).unwrap();
    assert_eq!(
        messages,
        [
            SearchResult {
                session_id: "s1".to_string(),
                project: "proj".to_string(),
                role: "user".to_string(),
                content: "first".to_string(),
                timestamp: Some("2024-01-01T00:00:00Z".to_string()),
            },
            SearchResult {
                session_id: "s1".to_string(),
                project: "proj".to_string(),
                role: "assistant".to_string(),
                content: "second".to_string(),
                timestamp: None,
            },
        ]
    );
    assert!(archive.run(get_session_messages("none")).unwrap().is_empty());
}

#[test]
fn updated_session_keeps_its_start() {
    let (mut archive, _tmp) = setup_db();
    archive.upsert("s1", "old", Some("2024-01-01T00:00:00Z"));
    archive.upsert("s1", "new", None);
    let sessions = archive.list(10, None, None, None);
    assert_eq!(sessions.len(), 1);
    assert_eq!(sessions[0].project, "new");
    assert_eq!(sessions[0].started_at.as_deref(), Some("2024-01-01T00:00:00Z"));
    archive.upsert("s1", "new", Some("2025-01-01T00:00:00Z"));
    let sessions = archive.list(10, None, None, None);
    assert_eq!(sessions[0].started_at.as_deref(), Some("2025-01-01T00:00:00Z"));
}

#[test]
fn search_meets_every_filter_at_once() {
    let (mut archive, _tmp) = setup_db();
    archive.upsert("s1", "-home-a-github-com-owner-repo", None);
    archive.upsert("s2", "-home-b-elsewhere", None);
    for (session, uuid, role, time) in [
        ("s1", "u1", "user", "2024-02-01"),
        ("s1", "u2", "assistant", "2024-02-01"),
        ("s1", "u3", "user", "2024-08-01"),
        ("s1", "u4", "user", "2023-02-01"),
        ("s2", "u5", "user", "2024-02-01"),
    ] {
        archive.insert(session, Some(uuid), role, &format!("needle {uuid}"), Some(time));
    }
    let found = archive.search(
        "needle",
        10,
        Some("owner/repo"),
        Some("user"),
        Some("2024-01-01"),
        Some("2024-06-01"),
    );
    assert_eq!(found.len(), 1);
    assert_eq!(found[0].content, "needle u1");
    assert_eq!(archive.search("needle", 2, None, None, None, None).len(), 2);
    assert_eq!(archive.search("needle", 0, None, None, None, None).len(), 0);
    assert_eq!(archive.search("needle", usize::MAX, None, None, None, None).len(), 5);
}

#[test]
fn explicit_syntax_reaches_the_index() {
    let (mut archive, _tmp) = setup_db();
    archive.upsert("s1", "proj", None);
    archive.insert("s1", Some("u1"), "user", "error handling in rust", None);
    archive.insert("s1", Some("u2"), "user", "handling an error", None);
    assert_eq!(
        archive.search("\"error handling\" AND rust", 10, None, None, None, None).len(),
        1
    );
    assert_eq!(archive.search("handling NOT rust", 10, None, None, None, None).len(), 1);
    // Without the query language, what looks like an operator is a word like any other.
    assert_eq!(archive.search("error-handling*", 10, None, None, None, None).len(), 1);
    assert_eq!(archive.search("handling: error", 10, None, None, None, None).len(), 2);
}

#[test]
fn prefixes_resolve_where_they_are_unique() {
    let (mut archive, _tmp) = setup_db();
    for id in ["47cf1f2e", "47aa0000", "a4d5aa81"] {
        archive.upsert(id, "proj", None);
    }
    assert_eq!(archive.run(resolve_session_id("47cf")).unwrap(), "47cf1f2e");
    let missing = archive.run(resolve_session_id("ff")).unwrap_err();
    assert_eq!(missing.message().unwrap(), "No session found matching: ff");
    let ambiguous = archive.run(resolve_session_id("47")).unwrap_err();
    assert!(ambiguous
        .message()
        .unwrap()
        .starts_with("Ambiguous prefix '47' matches 2 sessions:\n  47"));
}

#[test]
fn prefixes_hold_no_wildcards() {
    let (mut archive, _tmp) = setup_db();
    archive.upsert("abc", "proj", None);
    for prefix in ["_bc", "%", "a_", "abcd"] {
        let error = archive.run(resolve_session_id(prefix)).unwrap_err();
        assert_eq!(error.message().unwrap(), format!("No session found matching: {prefix}"));
    }
    for prefix in ["", "a", "abc", "ABC", "aB"] {
        assert_eq!(archive.run(resolve_session_id(prefix)).unwrap(), "abc");
    }
    // A wildcard in an identifier is a character like any other.
    archive.upsert("x_1", "proj", None);
    archive.upsert("xy1", "proj", None);
    assert_eq!(archive.run(resolve_session_id("x_")).unwrap(), "x_1");
}

#[test]
fn no_session_is_at_the_largest_index() {
    let (mut archive, _tmp) = setup_db();
    archive.upsert("s1", "proj", None);
    for n in [1, i64::MAX as usize, i64::MAX as usize + 1, usize::MAX] {
        let error = archive.run(nth_recent_session_id(n)).unwrap_err();
        assert_eq!(
            error.message().unwrap(),
            format!("No session found at position {}", n as u128 + 1)
        );
    }
    assert_eq!(archive.run(nth_recent_session_id(0)).unwrap(), "s1");
}

#[test]
fn recent_sessions_are_counted_from_zero() {
    let (mut archive, _tmp) = setup_db();
    archive.upsert("old", "proj", Some("2024-01-01"));
    archive.upsert("new", "proj", Some("2024-06-01"));
    assert_eq!(archive.run(nth_recent_session_id(0)).unwrap(), "new");
    assert_eq!(archive.run(nth_recent_session_id(1)).unwrap(), "old");
    let error = archive.run(nth_recent_session_id(2)).unwrap_err();
    assert_eq!(error.message().unwrap(), "No session found at position 3");
}

#[test]
fn list_shows_previews_and_counts() {
    let (mut archive, _tmp) = setup_db();
    archive.upsert("s1", "p1", Some("2024-03-01"));
    archive.insert("s1", None, "user", "{\"tool\": \"result\"}", None);
    archive.insert("s1", None, "user", "How do I archive?", None);
    archive.upsert("s2", "p2", Some("2024-02-01"));
    archive.insert("s2", None, "user", "ok", None);
    archive.insert("s2", None, "assistant", "Here is the plan", None);
    archive.upsert("s3", "p3", Some("2024-01-01"));
    let sessions = archive.list(10, None, None, None);
    let shown: Vec<(&str, i64, Option<&str>)> = sessions
        .iter()
        .map(|s| (s.session_id.as_str(), s.message_count, s.first_user_message.as_deref()))
        .collect();
    assert_eq!(
        shown,
        [
            ("s1", 2, Some("How do I archive?")),
            ("s2", 2, Some("Here is the plan")),
            ("s3", 0, None),
        ]
    );
    assert_eq!(archive.list(1, None, None, None).len(), 1);
    assert_eq!(archive.list(10, Some("p2"), None, None).len(), 1);
}

#[test]
fn message_without_a_session_is_refused() {
    let (mut archive, _tmp) = setup_db();
    let error = archive
        .run(insert_message("nobody", None, "user", "hello", None))
        .unwrap_err();
    assert!(matches!(error, VaultError::Database { .. }));
    assert_eq!(archive.stats(), (0, 0));
}

#[test]
fn deleting_takes_the_messages_out_of_the_index() {
    let (mut archive, _tmp) = setup_db();
    archive.upsert("s1", "proj", None);
    archive.upsert("s2", "proj", None);
    archive.insert("s1", None, "user", "needle one", None);
    archive.insert("s2", None, "user", "needle two", None);
    assert_eq!(archive.run(delete_session("s1")).unwrap(), 1);
    let found = archive.search("needle", 10, None, None, None, None);
    assert_eq!(found.len(), 1);
    assert_eq!(found[0].session_id, "s2");
    assert_eq!(archive.run(delete_session("s1")).unwrap(), 0);
}

#[test]
fn consistent_archive_passes_the_check() {
    let (mut archive, _tmp) = setup_db();
    archive.upsert("s1", "-home-user-ghq-github-com-owner-repo", None);
    archive.insert("s1", Some("u1"), "user", "import it\nnow", Some("2024-01-01"));
    archive.insert("s1", Some("u2"), "assistant", "cargo build", None);
    archive.session.printed.clear();
    archive.run(verify()).unwrap();
    let report = &archive.session.printed;
    assert_eq!(report[0], "=== 1. Messages by role ===");
    assert!(report.contains(&"  user: 1".to_string()));
    assert!(report.contains(&"  Sessions: 1, Projects: 1".to_string()));
    assert!(report.contains(&"  owner/repo: 2".to_string()));
    assert!(report.contains(&"  [user] 2024-01-01 | import it now".to_string()));
    assert!(report.contains(&"  [assistant] ? | cargo build".to_string()));
    assert!(report.contains(&"  \"import\": 1 hits".to_string()));
    assert!(report.contains(&"  \"SQLite\": 0 hits".to_string()));
    assert!(report.contains(&"  \"cargo\": 1 hits".to_string()));
    assert_eq!(report.last().unwrap(), "\nAll checks passed.");
}

#[test]
fn index_lists_the_messages_whatever_it_finds() {
    let (mut archive, _tmp) = setup_db();
    archive.upsert("s1", "proj", None);
    archive.insert("s1", None, "user", "needle", None);
    archive.batch(&format!("DROP TABLE messages_fts; {CREATE_INDEX}"));
    assert!(archive.search("needle", 10, None, None, None, None).is_empty());
    archive.session.printed.clear();
    archive.run(verify()).unwrap();
    assert!(archive.session.printed.contains(&"  messages_fts: 1 rows".to_string()));
}

#[test]
fn new_vault_finds_what_is_stored() {
    let (mut archive, _tmp) = setup_db();
    archive.upsert("s1", "proj", None);
    for i in 0..5 {
        archive.insert("s1", None, "user", &format!("needle {i}"), None);
    }
    assert_eq!(archive.search("needle", 10, None, None, None, None).len(), 5);
    assert_eq!(archive.stats(), (1, 5));
}

#[test]
fn duplicates_fail_the_check() {
    let (mut archive, _tmp) = setup_db();
    archive.upsert("s1", "proj", None);
    archive.insert("s1", Some("u1"), "user", "one", None);
    archive.batch(
        "DROP INDEX idx_messages_uuid;
         INSERT INTO messages (session_id, uuid, role, content) VALUES ('s1', 'u1', 'user', 'two');",
    );
    let error = archive.run(verify()).unwrap_err();
    assert!(matches!(error, VaultError::VerificationFailed));
    assert!(archive.session.printed.contains(&"  Duplicate UUIDs: 1 FAIL".to_string()));
    assert!(!archive.session.printed.contains(&"\nAll checks passed.".to_string()));
}

#[test]
fn directory_is_no_database() {
    let tmp = TempDir::new().unwrap();
    let runtime = runtime();
    let mut session = Session::default();
    let start = open_vault(&tmp.path().display().to_string(), None);
    assert!(runtime.block_on(session.run(tmp.path(), start)).is_err());
}

#[test]
fn local_file_is_refused_as_a_replica() {
    let tmp = TempDir::new().unwrap();
    let path = tmp.path().join("test.db");
    drop(Archive::open(&path));
    let runtime = runtime();
    let mut session = Session::default();
    let options = SyncOptions { url: "http://127.0.0.1:1".to_string(), auth_token: None };
    let start = open_vault("test.db", Some(options));
    let error = match runtime.block_on(session.run(&path, start)) {
        Ok(_) => panic!("a local file was opened as a replica"),
        Err(error) => error,
    };
    assert_eq!(
        error.message().unwrap(),
        "Failed to open synced database test.db (sync URL: http://127.0.0.1:1)"
    );
}

#[test]
fn storing_a_session_twice_changes_nothing() {
    let (mut archive, _tmp) = setup_db();
    archive.upsert("s1", "proj", Some("2024-01-01"));
    archive.upsert("s2", "other", None);
    let row = "SELECT project || ',' || started_at || ',' || imported_at FROM sessions
               WHERE session_id = 's1'";
    let before = archive.text(row);
    archive.upsert("s1", "proj", Some("2024-01-01"));
    archive.upsert("s1", "proj", None);
    assert_eq!(archive.text(row), before);
    assert_eq!(archive.stats(), (2, 0));
}

#[test]
fn skipped_message_leaves_the_stored_one() {
    let (mut archive, _tmp) = setup_db();
    archive.upsert("s1", "proj", None);
    archive.upsert("s2", "proj", None);
    assert!(archive.insert("s1", Some("u1"), "user", "first", None));
    // The identifier is taken, whatever the session.
    assert!(!archive.insert("s2", Some("u1"), "assistant", "second", None));
    assert_eq!(archive.text("SELECT content FROM messages"), "first");
    // A deletion frees it.
    assert_eq!(archive.run(delete_session("s1")).unwrap(), 1);
    assert!(archive.insert("s2", Some("u1"), "assistant", "second", None));
}

#[test]
fn recent_session_is_the_listed_one() {
    let (mut archive, _tmp) = setup_db();
    for (id, start) in [("b", "2024-02-01"), ("c", "2024-03-01"), ("a", "2024-01-01")] {
        archive.upsert(id, "proj", Some(start));
    }
    let all = archive.list(10, None, None, None);
    assert_eq!(all.len(), 3);
    for (n, session) in all.iter().enumerate() {
        assert_eq!(archive.run(nth_recent_session_id(n)).unwrap(), session.session_id);
    }
    assert!(archive.run(nth_recent_session_id(all.len())).is_err());
}

#[test]
fn filters_leave_a_part_of_the_listing() {
    let (mut archive, _tmp) = setup_db();
    for (id, project, start) in [
        ("a", "-x-github-com-o-r", "2024-01-01"),
        ("b", "-x-github-com-o-r", "2024-02-01"),
        ("c", "-x-elsewhere", "2024-02-15"),
        ("d", "-x-github-com-o-r", "2024-03-01"),
    ] {
        archive.upsert(id, project, Some(start));
        archive.insert(id, None, "user", "What is to be done?", None);
    }
    let mut expected = archive.list(10, None, None, None);
    expected.retain(|s| {
        s.project.contains("o-r") && s.started_at.as_deref().unwrap() >= "2024-01-15"
    });
    assert_eq!(archive.list(10, Some("o/r"), Some("2024-01-15"), None), expected);
    assert_eq!(expected.len(), 2);
}

#[test]
fn filters_leave_a_part_of_the_search() {
    let (mut archive, _tmp) = setup_db();
    archive.upsert("s1", "proj", None);
    for (role, time) in [("user", Some("2024-01-01")), ("assistant", Some("2024-02-01")), ("user", None)] {
        archive.insert("s1", None, role, "needle", time);
    }
    let key = |m: &SearchResult| (m.role.clone(), m.timestamp.clone());
    let mut expected: Vec<_> = archive
        .search("needle", 10, None, None, None, None)
        .iter()
        .map(key)
        .filter(|(role, time)| role == "user" && time.is_some())
        .collect();
    let mut found: Vec<_> = archive
        .search("needle", 10, None, Some("user"), Some("2023"), None)
        .iter()
        .map(key)
        .collect();
    expected.sort();
    found.sort();
    assert_eq!(found, expected);
    assert_eq!(found.len(), 1);
}

#[test]
fn migrated_vault_is_not_migrated_again() {
    let tmp = TempDir::new().unwrap();
    let path = tmp.path().join("old.db");
    {
        let mut archive = Archive::open(&path);
        archive.upsert("s1", "proj", None);
        archive.insert("s1", None, "user", "running", None);
        archive.batch(
            "DROP TABLE messages_fts;
             CREATE VIRTUAL TABLE messages_fts USING fts5(
                 content, content_rowid='id', content='messages');",
        );
    }
    assert_eq!(Archive::open(&path).session.asked, 11);
    let mut archive = Archive::open(&path);
    assert_eq!(archive.session.asked, 4);
    assert!(archive.session.printed.is_empty());
    assert_eq!(archive.stats(), (1, 1));
    assert_eq!(archive.search("run", 10, None, None, None, None).len(), 1);
}

#[test]
fn counts_are_what_the_statements_say() {
    let (mut archive, _tmp) = setup_db();
    archive.upsert("s1", "proj", None);
    archive.insert("s1", None, "user", "hello", None);
    let sessions = archive.text(&format!("SELECT CAST(({COUNT_SESSIONS}) AS TEXT)"));
    let messages = archive.text(&format!("SELECT CAST(({COUNT_MESSAGES}) AS TEXT)"));
    assert_eq!((sessions.as_str(), messages.as_str()), ("1", "1"));
    assert_eq!(archive.stats(), (1, 1));
}
