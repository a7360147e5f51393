//! The tasks, with every reply written by hand.
use claude_vault::filter::{build_limited_query, Condition};
use claude_vault::messages::{SELECT_MATCHES, SELECT_SESSION_MESSAGES};
use claude_vault::report::{
    COUNT_BY_ROLE, COUNT_DUPLICATES, COUNT_INDEXED, COUNT_MATCHES, COUNT_PROJECTS, SELECT_SAMPLES,
    SELECT_TOP_PROJECTS,
};
use claude_vault::sessions::{
    SELECT_ASSISTANT_MESSAGES, SELECT_BY_PREFIX, SELECT_NTH_RECENT, SELECT_SESSIONS,
    SELECT_USER_MESSAGES,
};
use claude_vault::store::{
    COUNT_MESSAGES, COUNT_SESSIONS, DELETE_MESSAGES, DELETE_SESSION, INSERT_MESSAGE, UPSERT_SESSION,
};
use claude_vault::vault::{
    init_schema, migrate_fts, CONFIGURE, CREATE_INDEX, CREATE_TABLES, CREATE_TRIGGERS, DROP_INDEX, INDEX_EXISTS,
    REBUILD_INDEX, SELECT_INDEX, SELECT_SCHEMA,
};
use claude_vault::{
    delete_session, get_session_messages, insert_message, list_sessions, nth_recent_session_id,
    open_vault, resolve_session_id, search, stats, upsert_session, verify, Column, Line, Next,
    Reply, Request, SearchResult, SessionSummary, Statement, Step, SyncOptions, Task, Value, Vault,
    VaultError,
};

type Cause = &'static str;

fn text(text: &str) -> Value {
    Value::Text(text.to_string())
}

fn rows(rows: Vec<Vec<Value>>) -> Reply<Cause> {
    Reply { count: 0, rows, failure: None }
}

fn done(count: u64) -> Reply<Cause> {
    Reply { count, rows: Vec::new(), failure: None }
}

fn failed(cause: Cause) -> Reply<Cause> {
    Reply { count: 0, rows: Vec::new(), failure: Some(cause) }
}

fn number(n: i64) -> Reply<Cause> {
    rows(vec![vec![Value::Integer(n)]])
}

fn texts(texts: &[&str]) -> Reply<Cause> {
    rows(texts.iter().map(|t| vec![text(t)]).collect())
}

/// What a task asked for, what it printed, and how it ended; `None` while it waits.
struct Trace<T> {
    asked: Vec<Request>,
    printed: Vec<Line<Cause>>,
    end: Option<Result<T, VaultError<Cause>>>,
}

fn play<T: Task<Cause>>(
    mut step: Step<T, T::Output, Cause>,
    replies: Vec<Reply<Cause>>,
) -> Trace<T::Output> {
    let mut trace = Trace { asked: Vec::new(), printed: Vec::new(), end: None };
    let mut replies = replies.into_iter();
    loop {
        trace.printed.extend(step.lines);
        let end = match step.next {
            Next::Ask(task, request) => {
                trace.asked.push(request);
                match replies.next() {
                    Some(reply) => {
                        step = task.resume(reply);
                        continue;
                    }
                    None => return trace,
                }
            }
            Next::Done(value) => Ok(value),
            Next::Failed(error) => Err(error),
        };
        assert!(replies.next().is_none(), "a reply was not asked for");
        trace.end = Some(end);
        return trace;
    }
}

fn outcome<T>(trace: Trace<T>) -> Result<T, VaultError<Cause>> {
    trace.end.unwrap()
}

fn statement(sql: &str, params: Vec<Value>) -> Statement {
    Statement { sql: sql.to_string(), params }
}

fn batch(sql: &str) -> Request {
    Request::Batch { sql: sql.to_string() }
}

fn execute(sql: &str, params: Vec<Value>) -> Request {
    Request::Execute { statement: statement(sql, params) }
}

fn fetch_all(sql: &str, params: Vec<Value>, columns: Vec<Column>) -> Request {
    Request::FetchAll { statement: statement(sql, params), columns }
}

fn fetch_first(sql: &str, params: Vec<Value>, columns: Vec<Column>) -> Request {
    Request::FetchFirst { statement: statement(sql, params), columns }
}

fn count(sql: &str) -> Request {
    fetch_first(sql, vec![], vec![Column::Integer])
}

const MESSAGE: [Column; 5] =
    [Column::Text, Column::Text, Column::Text, Column::Text, Column::OptionalText];

// Storing, counting and deleting.

#[test]
fn sessions_are_stored_by_one_statement() {
    let trace = play(upsert_session("s1", "proj", Some("2024-01-01")), vec![done(1)]);
    assert_eq!(
        trace.asked,
        [execute(UPSERT_SESSION, vec![text("s1"), text("proj"), text("2024-01-01")])]
    );
    assert_eq!(trace.end, Some(Ok(())));
    let trace = play(upsert_session("s1", "proj", None), vec![failed("disk full")]);
    assert_eq!(
        trace.asked,
        [execute(UPSERT_SESSION, vec![text("s1"), text("proj"), Value::Null])]
    );
    assert_eq!(trace.end, Some(Err(VaultError::Database { cause: "disk full" })));
}

#[test]
fn messages_tell_whether_they_were_stored() {
    let start = || insert_message("s1", Some("u1"), "user", "hello", None);
    let trace = play(start(), vec![done(1)]);
    assert_eq!(
        trace.asked,
        [execute(
            INSERT_MESSAGE,
            vec![text("s1"), text("u1"), text("user"), text("hello"), Value::Null]
        )]
    );
    assert_eq!(trace.end, Some(Ok(true)));
    assert_eq!(outcome(play(start(), vec![done(0)])), Ok(false));
    assert_eq!(
        outcome(play(start(), vec![failed("locked")])),
        Err(VaultError::Database { cause: "locked" })
    );
}

#[test]
fn both_counts_come_back() {
    let trace = play(stats(), vec![number(178), number(94562)]);
    assert_eq!(trace.asked, [count(COUNT_SESSIONS), count(COUNT_MESSAGES)]);
    assert_eq!(trace.end, Some(Ok((178, 94562))));
    assert_eq!(outcome(play(stats(), vec![rows(vec![])])), Err(VaultError::NoRows));
    assert_eq!(
        outcome(play(stats(), vec![number(1), failed("gone")])),
        Err(VaultError::Database { cause: "gone" })
    );
    assert_eq!(outcome(play(stats(), vec![texts(&["1"])])), Err(VaultError::MalformedRow));
}

#[test]
fn messages_are_deleted_before_their_session() {
    let trace = play(delete_session("s1"), vec![done(2), done(1)]);
    assert_eq!(
        trace.asked,
        [
            execute(DELETE_MESSAGES, vec![text("s1")]),
            execute(DELETE_SESSION, vec![text("s1")]),
        ]
    );
    assert_eq!(trace.end, Some(Ok(2)));
}

#[test]
fn session_stays_where_its_messages_cannot_be_deleted() {
    let trace = play(delete_session("s1"), vec![failed("locked")]);
    assert_eq!(trace.asked, [execute(DELETE_MESSAGES, vec![text("s1")])]);
    assert_eq!(trace.end, Some(Err(VaultError::Database { cause: "locked" })));
}

// Searching and reading.

#[test]
fn search_without_filters() {
    let trace = play(search("hello world", 10, None, None, None, None), vec![]);
    assert_eq!(
        trace.asked,
        [fetch_all(
            &format!("{SELECT_MATCHES} WHERE messages_fts MATCH ?1 ORDER BY rank LIMIT ?2"),
            vec![text("\"hello\" \"world\""), Value::Integer(10)],
            MESSAGE.to_vec(),
        )]
    );
}

#[test]
fn search_with_all_filters() {
    let trace = play(
        search("x", usize::MAX, Some("o/r"), Some("user"), Some("2024"), Some("2025")),
        vec![],
    );
    assert_eq!(
        trace.asked,
        [fetch_all(
            &format!(
                "{SELECT_MATCHES} WHERE messages_fts MATCH ?1 AND s.project LIKE ?2 AND \
                 m.role = ?3 AND m.timestamp >= ?4 AND m.timestamp <= ?5 ORDER BY rank LIMIT ?6"
            ),
            vec![
                text("\"x\""),
                text("%o-r%"),
                text("user"),
                text("2024"),
                text("2025"),
                Value::Integer(-1),
            ],
            MESSAGE.to_vec(),
        )]
    );
}

#[test]
fn search_numbers_the_filters_that_are_given() {
    let trace = play(search("a AND b", 3, None, None, None, Some("2025")), vec![]);
    assert_eq!(
        trace.asked,
        [fetch_all(
            &format!(
                "{SELECT_MATCHES} WHERE messages_fts MATCH ?1 AND m.timestamp <= ?2 \
                 ORDER BY rank LIMIT ?3"
            ),
            vec![text("a AND b"), text("2025"), Value::Integer(3)],
            MESSAGE.to_vec(),
        )]
    );
}

#[test]
fn many_conditions_have_numbers_of_two_digits() {
    let conditions: Vec<Condition> = (0..10)
        .map(|i| Condition { clause: format!("c{i} = ?"), value: format!("v{i}") })
        .collect();
    let query = build_limited_query("SELECT 1", conditions, " ORDER BY 1", 5);
    assert!(query.sql.starts_with("SELECT 1 WHERE c0 = ?1 AND c1 = ?2 AND "));
    assert!(query.sql.ends_with(" AND c9 = ?10 ORDER BY 1 LIMIT ?11"));
    assert_eq!(query.params.len(), 11);
    assert_eq!(query.params[9], text("v9"));
    assert_eq!(query.params[10], Value::Integer(5));
    let query = build_limited_query("SELECT 1", vec![], " ORDER BY 1", 5);
    assert_eq!(query, statement("SELECT 1 ORDER BY 1 LIMIT ?1", vec![Value::Integer(5)]));
}

#[test]
fn blank_search_asks_for_nothing() {
    for query in ["", "   ", "\u{3000}\n"] {
        let trace = play(search(query, 10, Some("p"), None, None, None), vec![]);
        assert!(trace.asked.is_empty());
        assert_eq!(trace.end, Some(Ok(vec![])));
    }
}

fn message_row(content: Value) -> Vec<Value> {
    vec![text("s1"), text("proj"), text("user"), content, Value::Null]
}

#[test]
fn messages_are_read_in_the_order_of_the_rows() {
    let trace = play(
        get_session_messages("s1"),
        vec![rows(vec![message_row(text("one")), message_row(text("two"))])],
    );
    assert_eq!(
        trace.asked,
        [fetch_all(SELECT_SESSION_MESSAGES, vec![text("s1")], MESSAGE.to_vec())]
    );
    let message = |content: &str| SearchResult {
        session_id: "s1".to_string(),
        project: "proj".to_string(),
        role: "user".to_string(),
        content: content.to_string(),
        timestamp: None,
    };
    assert_eq!(trace.end, Some(Ok(vec![message("one"), message("two")])));
}

#[test]
fn messages_are_lost_with_the_rows_behind_them() {
    let broken = Reply {
        count: 0,
        rows: vec![message_row(text("one"))],
        failure: Some("corrupt"),
    };
    assert_eq!(
        outcome(play(get_session_messages("s1"), vec![broken])),
        Err(VaultError::Database { cause: "corrupt" })
    );
    let malformed = rows(vec![message_row(Value::Null)]);
    assert_eq!(
        outcome(play(search("x", 1, None, None, None, None), vec![malformed])),
        Err(VaultError::MalformedRow)
    );
}

// Sessions.

#[test]
fn prefix_with_one_match() {
    let trace = play(resolve_session_id("47cf"), vec![texts(&["47cf1f2e"])]);
    assert_eq!(
        trace.asked,
        [fetch_all(SELECT_BY_PREFIX, vec![text("47cf")], vec![Column::Text])]
    );
    assert_eq!(trace.end, Some(Ok("47cf1f2e".to_string())));
}

#[test]
fn prefix_without_a_match() {
    let error = outcome(play(resolve_session_id("zz"), vec![texts(&[])])).unwrap_err();
    assert_eq!(error, VaultError::NoSession { prefix: "zz".to_string() });
    assert_eq!(error.message(), Some("No session found matching: zz".to_string()));
}

#[test]
fn prefix_with_several_matches() {
    let error = outcome(play(resolve_session_id("a"), vec![texts(&["a1", "a2"])])).unwrap_err();
    assert_eq!(
        error.message(),
        Some("Ambiguous prefix 'a' matches 2 sessions:\n  a1\n  a2".to_string())
    );
    let all = ["a1", "a2", "a3", "a4", "a5", "a6", "a7"];
    let error = outcome(play(resolve_session_id("a"), vec![texts(&all)])).unwrap_err();
    assert_eq!(
        error.message(),
        Some("Ambiguous prefix 'a' matches 7 sessions:\n  a1\n  a2\n  a3\n  a4\n  a5".to_string())
    );
    let error = outcome(play(resolve_session_id("a"), vec![texts(&all[..5])])).unwrap_err();
    assert!(error.message().unwrap().ends_with("5 sessions:\n  a1\n  a2\n  a3\n  a4\n  a5"));
}

#[test]
fn replies_that_do_not_start_with_the_prefix_are_passed_over() {
    let ids = ["abc", "_bd", "_bc", "ABC"];
    assert_eq!(
        outcome(play(resolve_session_id("_bc"), vec![texts(&ids)])),
        Ok("_bc".to_string())
    );
    assert_eq!(
        outcome(play(resolve_session_id("_bc"), vec![texts(&["abc"])])),
        Err(VaultError::NoSession { prefix: "_bc".to_string() })
    );
    assert_eq!(
        outcome(play(resolve_session_id("ABC"), vec![texts(&["abc"])])),
        Ok("abc".to_string())
    );
    // Only ASCII letters are the same in upper case and lower.
    assert_eq!(
        outcome(play(resolve_session_id("É"), vec![texts(&["é"])])),
        Err(VaultError::NoSession { prefix: "É".to_string() })
    );
    assert_eq!(
        outcome(play(resolve_session_id("_b"), vec![texts(&ids)])),
        Err(VaultError::AmbiguousPrefix {
            prefix: "_b".to_string(),
            count: 2,
            previews: vec!["_bd".to_string(), "_bc".to_string()],
        })
    );
}

#[test]
fn index_that_cannot_be_bound_is_the_largest_that_can() {
    for (n, offset) in [
        (i64::MAX as usize, i64::MAX),
        (i64::MAX as usize + 1, i64::MAX),
        (usize::MAX, i64::MAX),
    ] {
        assert_eq!(
            play(nth_recent_session_id(n), vec![]).asked,
            [fetch_first(SELECT_NTH_RECENT, vec![Value::Integer(offset)], vec![Column::Text])]
        );
    }
}

#[test]
fn recent_session_by_its_index() {
    let trace = play(nth_recent_session_id(2), vec![texts(&["s3"])]);
    assert_eq!(
        trace.asked,
        [fetch_first(SELECT_NTH_RECENT, vec![Value::Integer(2)], vec![Column::Text])]
    );
    assert_eq!(trace.end, Some(Ok("s3".to_string())));
    let error = outcome(play(nth_recent_session_id(0), vec![texts(&[])])).unwrap_err();
    assert_eq!(error.message(), Some("No session found at position 1".to_string()));
    assert_eq!(
        outcome(play(nth_recent_session_id(0), vec![failed("gone")])),
        Err(VaultError::Database { cause: "gone" })
    );
    let error = outcome(play(nth_recent_session_id(usize::MAX), vec![texts(&[])])).unwrap_err();
    assert_eq!(
        error,
        VaultError::NoSessionAt { position: usize::MAX as u128 + 1 }
    );
}

fn session_row(id: &str) -> Vec<Value> {
    vec![text(id), text("proj"), Value::Null, Value::Integer(3)]
}

fn summary(id: &str, preview: Option<&str>) -> SessionSummary {
    SessionSummary {
        session_id: id.to_string(),
        project: "proj".to_string(),
        started_at: None,
        message_count: 3,
        first_user_message: preview.map(|p| p.to_string()),
    }
}

#[test]
fn every_listed_session_gets_its_preview() {
    let trace = play(
        list_sessions(10, None, None, None),
        vec![
            rows(vec![session_row("s1"), session_row("s2"), session_row("s3")]),
            texts(&["ok", "What is new?"]),
            texts(&["{}"]),
            texts(&["Nothing much."]),
            texts(&[]),
            texts(&["<tag>"]),
        ],
    );
    let fetch = |sql: &str, id: &str| fetch_all(sql, vec![text(id)], vec![Column::Text]);
    assert_eq!(
        trace.asked,
        [
            fetch_all(
                &format!(
                    "{SELECT_SESSIONS} ORDER BY COALESCE(s.started_at, s.imported_at) DESC LIMIT ?1"
                ),
                vec![Value::Integer(10)],
                vec![Column::Text, Column::Text, Column::OptionalText, Column::Integer],
            ),
            fetch(SELECT_USER_MESSAGES, "s1"),
            fetch(SELECT_USER_MESSAGES, "s2"),
            fetch(SELECT_ASSISTANT_MESSAGES, "s2"),
            fetch(SELECT_USER_MESSAGES, "s3"),
            fetch(SELECT_ASSISTANT_MESSAGES, "s3"),
        ]
    );
    assert_eq!(
        trace.end,
        Some(Ok(vec![
            summary("s1", Some("What is new?")),
            summary("s2", Some("Nothing much.")),
            summary("s3", None),
        ]))
    );
}

#[test]
fn listing_with_all_filters() {
    let trace = play(list_sessions(5, Some("o/r"), Some("2024"), Some("2025")), vec![rows(vec![])]);
    assert_eq!(
        trace.asked,
        [fetch_all(
            &format!(
                "{SELECT_SESSIONS} WHERE s.project LIKE ?1 AND \
                 COALESCE(s.started_at, s.imported_at) >= ?2 AND \
                 COALESCE(s.started_at, s.imported_at) <= ?3 \
                 ORDER BY COALESCE(s.started_at, s.imported_at) DESC LIMIT ?4"
            ),
            vec![text("%o-r%"), text("2024"), text("2025"), Value::Integer(5)],
            vec![Column::Text, Column::Text, Column::OptionalText, Column::Integer],
        )]
    );
    assert_eq!(trace.end, Some(Ok(vec![])));
}

#[test]
fn listing_stops_at_a_failure() {
    let start = || list_sessions(10, None, None, None);
    assert_eq!(
        outcome(play(start(), vec![failed("gone")])),
        Err(VaultError::Database { cause: "gone" })
    );
    let sessions = || rows(vec![session_row("s1"), session_row("s2")]);
    assert_eq!(
        outcome(play(start(), vec![sessions(), failed("gone")])),
        Err(VaultError::Database { cause: "gone" })
    );
    assert_eq!(
        outcome(play(start(), vec![sessions(), texts(&[]), failed("gone")])),
        Err(VaultError::Database { cause: "gone" })
    );
    let malformed = rows(vec![vec![text("s1"), text("proj"), Value::Null, Value::Null]]);
    assert_eq!(outcome(play(start(), vec![malformed])), Err(VaultError::MalformedRow));
    let numbers = number(1);
    assert_eq!(
        outcome(play(start(), vec![sessions(), numbers])),
        Err(VaultError::MalformedRow)
    );
}

// Opening and syncing.

fn schema(sessions: i64, index: Option<&str>) -> Reply<Cause> {
    let index = match index {
        Some(sql) => text(sql),
        None => Value::Null,
    };
    rows(vec![vec![Value::Integer(sessions), index]])
}

fn synced() -> Option<SyncOptions> {
    Some(SyncOptions {
        url: "libsql://vault.example".to_string(),
        auth_token: Some("token".to_string()),
    })
}

fn open_synced() -> Request {
    Request::OpenSynced {
        url: "libsql://vault.example".to_string(),
        auth_token: "token".to_string(),
    }
}

fn schema_request() -> Request {
    fetch_first(SELECT_SCHEMA, vec![], vec![Column::Integer, Column::OptionalText])
}

fn opened(sync: Option<SyncOptions>) -> Vault {
    match play(
        open_vault("v.db", sync),
        vec![done(0), done(0), done(0), schema(1, Some("porter"))],
    )
    .end
    {
        Some(Ok(vault)) => vault,
        _ => panic!("the vault did not open"),
    }
}

#[test]
fn current_local_vault_is_opened_as_it_is() {
    let trace = play(
        open_vault("v.db", None),
        vec![done(0), done(0), done(0), schema(1, Some(CREATE_INDEX))],
    );
    assert_eq!(
        trace.asked,
        [Request::OpenLocal, Request::Connect, batch(CONFIGURE), schema_request()]
    );
    assert!(trace.printed.is_empty());
    assert!(!outcome(trace).unwrap().sync_enabled());
}

#[test]
fn current_synced_vault_is_pulled_first() {
    let trace = play(
        open_vault("v.db", synced()),
        vec![done(0), done(0), done(12), schema(1, Some(CREATE_INDEX))],
    );
    assert_eq!(
        trace.asked,
        [open_synced(), Request::Connect, Request::Sync, schema_request()]
    );
    assert!(trace.printed.is_empty());
    assert!(outcome(trace).unwrap().sync_enabled());
}

#[test]
fn missing_token_is_an_empty_one() {
    let options = SyncOptions { url: "http://server:8080".to_string(), auth_token: None };
    let trace = play(open_vault("v.db", Some(options)), vec![]);
    assert_eq!(
        trace.asked,
        [Request::OpenSynced {
            url: "http://server:8080".to_string(),
            auth_token: String::new(),
        }]
    );
}

#[test]
fn offline_replica_opens_with_a_warning() {
    let trace = play(
        open_vault("v.db", synced()),
        vec![done(0), done(0), failed("no route"), schema(1, Some("porter"))],
    );
    assert_eq!(
        trace.printed,
        [Line::Warning(
            "Warning: could not sync with remote (using local replica): ".to_string(),
            "no route"
        )]
    );
    assert!(outcome(trace).unwrap().sync_enabled());
}

#[test]
fn missing_schema_is_created() {
    let trace = play(
        open_vault("v.db", None),
        vec![
            done(0),
            done(0),
            done(0),
            schema(0, None),
            done(0),
            number(0),
            done(0),
            done(0),
        ],
    );
    assert_eq!(
        trace.asked[3..],
        [
            schema_request(),
            batch(CREATE_TABLES),
            count(INDEX_EXISTS),
            batch(CREATE_INDEX),
            batch(CREATE_TRIGGERS),
        ]
    );
    assert!(trace.printed.is_empty());
    assert!(!outcome(trace).unwrap().sync_enabled());
}

#[test]
fn old_index_is_replaced() {
    let old = "CREATE VIRTUAL TABLE messages_fts USING fts5(content)";
    let trace = play(
        open_vault("v.db", synced()),
        vec![
            done(0),
            done(0),
            done(0),
            schema(1, Some(old)),
            done(0),
            number(1),
            texts(&[old]),
            done(0),
            done(0),
            done(0),
            done(0),
        ],
    );
    assert_eq!(
        trace.asked[4..],
        [
            batch(CREATE_TABLES),
            count(INDEX_EXISTS),
            fetch_first(SELECT_INDEX, vec![], vec![Column::Text]),
            batch(DROP_INDEX),
            batch(CREATE_INDEX),
            batch(REBUILD_INDEX),
            batch(CREATE_TRIGGERS),
        ]
    );
    assert_eq!(
        trace.printed,
        [
            Line::Notice("Migrating FTS index to Porter stemming tokenizer...".to_string()),
            Line::Notice("FTS index rebuilt with Porter stemming.".to_string()),
        ]
    );
    assert!(outcome(trace).unwrap().sync_enabled());
}

#[test]
fn stemming_index_is_kept_where_the_sessions_are_missing() {
    let trace = play(
        open_vault("v.db", None),
        vec![
            done(0),
            done(0),
            done(0),
            schema(0, Some("porter")),
            done(0),
            number(1),
            texts(&["porter"]),
            done(0),
        ],
    );
    assert_eq!(trace.asked.last(), Some(&batch(CREATE_TRIGGERS)));
    assert!(!trace.asked.contains(&batch(DROP_INDEX)));
    assert!(trace.end.unwrap().is_ok());
}

#[test]
fn schema_and_migration_start_with_a_question_each() {
    assert_eq!(play(init_schema(false), vec![]).asked, [batch(CREATE_TABLES)]);
    let trace = play(migrate_fts(true), vec![number(1), texts(&["porter"])]);
    assert_eq!(
        trace.asked,
        [
            count(INDEX_EXISTS),
            fetch_first(SELECT_INDEX, vec![], vec![Column::Text]),
            batch(CREATE_TRIGGERS),
        ]
    );
    assert!(trace.printed.is_empty() && trace.end.is_none());
    let trace = play(migrate_fts(false), vec![number(0), done(0)]);
    assert_eq!(
        trace.asked,
        [count(INDEX_EXISTS), batch(CREATE_INDEX), batch(CREATE_TRIGGERS)]
    );
}

#[test]
fn opening_fails_with_its_cause() {
    let error = match outcome(play(open_vault("v.db", None), vec![failed("denied")])) {
        Ok(_) => panic!("the vault opened"),
        Err(error) => error,
    };
    assert_eq!(
        error,
        VaultError::OpenLocalFailed { path: "v.db".to_string(), cause: "denied" }
    );
    assert_eq!(error.message(), Some("Failed to open database: v.db".to_string()));
    let error = match outcome(play(open_vault("v.db", synced()), vec![failed("denied")])) {
        Ok(_) => panic!("the vault opened"),
        Err(error) => error,
    };
    assert_eq!(
        error.message(),
        Some("Failed to open synced database v.db (sync URL: libsql://vault.example)".to_string())
    );
}

#[test]
fn any_failed_statement_ends_the_opening() {
    let complete = || {
        vec![
            done(0),
            done(0),
            done(0),
            schema(1, Some("old")),
            done(0),
            number(1),
            texts(&["old"]),
            done(0),
            done(0),
            done(0),
            done(0),
        ]
    };
    assert!(play(open_vault("v.db", None), complete()).end.unwrap().is_ok());
    for i in 1..complete().len() {
        let mut replies = complete();
        replies.truncate(i);
        replies.push(failed("broken"));
        match outcome(play(open_vault("v.db", None), replies)) {
            Err(error) => assert_eq!(error, VaultError::Database { cause: "broken" }),
            Ok(_) => panic!("the vault opened"),
        }
    }
    match outcome(play(open_vault("v.db", None), vec![done(0), done(0), done(0), done(0)])) {
        Err(error) => assert_eq!(error, VaultError::NoRows),
        Ok(_) => panic!("the vault opened"),
    }
    match outcome(play(open_vault("v.db", None), vec![done(0), done(0), done(0), number(1)])) {
        Err(error) => assert_eq!(error, VaultError::MalformedRow),
        Ok(_) => panic!("the vault opened"),
    }
}

#[test]
fn local_vault_does_not_sync() {
    let vault = opened(None);
    let trace = play(vault.sync(), vec![]);
    assert!(trace.asked.is_empty());
    let error = outcome(trace).unwrap_err();
    assert_eq!(error, VaultError::SyncDisabled);
    assert_eq!(
        error.message().unwrap(),
        "Sync is not enabled. Pass --sync-url (or set CLAUDE_VAULT_SYNC_URL) to use a synced database."
    );
    let trace = play(vault.sync_after_write(), vec![]);
    assert!(trace.asked.is_empty() && trace.printed.is_empty());
    assert_eq!(trace.end, Some(Ok(())));
}

#[test]
fn synced_vault_counts_its_frames() {
    let vault = opened(synced());
    let trace = play(vault.sync(), vec![done(42)]);
    assert_eq!(trace.asked, [Request::Sync]);
    assert_eq!(trace.end, Some(Ok(42)));
    let error = outcome(play(vault.sync(), vec![failed("no route")])).unwrap_err();
    assert_eq!(error, VaultError::SyncFailed { cause: "no route" });
    assert_eq!(error.message().unwrap(), "Failed to sync with the remote database");
}

#[test]
fn sync_after_writes_only_warns() {
    let vault = opened(synced());
    let trace = play(vault.sync_after_write(), vec![done(1)]);
    assert_eq!(trace.asked, [Request::Sync]);
    assert!(trace.printed.is_empty());
    assert_eq!(trace.end, Some(Ok(())));
    let trace = play(vault.sync_after_write(), vec![failed("no route")]);
    assert_eq!(
        trace.printed,
        [Line::Warning(
            "Warning: post-write sync failed (will catch up on next sync): ".to_string(),
            "no route"
        )]
    );
    assert_eq!(trace.end, Some(Ok(())));
}

// The check.

fn check_replies(messages: i64, indexed: i64, duplicates: i64) -> Vec<Reply<Cause>> {
    vec![
        rows(vec![
            vec![text("assistant"), Value::Integer(2)],
            vec![text("user"), Value::Integer(1)],
        ]),
        number(4),
        number(2),
        rows(vec![vec![text("-home-u-github-com-owner-repo"), Value::Integer(3)]]),
        number(messages),
        number(indexed),
        number(duplicates),
        rows(vec![
            vec![text("user"), text("line one\nline two"), text("2024-01-01")],
            vec![text("assistant"), text("reply"), Value::Null],
        ]),
        number(1),
        number(2),
        number(0),
    ]
}

fn printed(lines: Vec<Line<Cause>>) -> Vec<String> {
    lines
        .into_iter()
        .map(|line| match line {
            Line::Output(text) => text,
            _ => panic!("the report goes to the standard output"),
        })
        .collect()
}

#[test]
fn report_of_a_consistent_archive() {
    let trace = play(verify(), check_replies(3, 3, 0));
    let pairs = vec![Column::Text, Column::Integer];
    let hits = |term: &str| fetch_first(COUNT_MATCHES, vec![text(term)], vec![Column::Integer]);
    assert_eq!(
        trace.asked,
        [
            fetch_all(COUNT_BY_ROLE, vec![], pairs.clone()),
            count(COUNT_SESSIONS),
            count(COUNT_PROJECTS),
            fetch_all(SELECT_TOP_PROJECTS, vec![], pairs),
            count(COUNT_MESSAGES),
            count(COUNT_INDEXED),
            count(COUNT_DUPLICATES),
            fetch_all(
                SELECT_SAMPLES,
                vec![],
                vec![Column::Text, Column::Text, Column::OptionalText]
            ),
            hits("import"),
            hits("SQLite"),
            hits("cargo"),
        ]
    );
    assert_eq!(
        printed(trace.printed),
        [
            "=== 1. Messages by role ===",
            "  assistant: 2",
            "  user: 1",
            "\n=== 2. Sessions and projects ===",
            "  Sessions: 4, Projects: 2",
            "\n=== 3. Top 5 projects by message count ===",
            "  owner/repo: 3",
            "\n=== 4. FTS index integrity ===",
            "  messages: 3 rows",
            "  messages_fts: 3 rows",
            "  Match: OK",
            "\n=== 5. UUID deduplication ===",
            "  Duplicate UUIDs: 0 OK",
            "\n=== 6. Recent message samples ===",
            "  [user] 2024-01-01 | line one line two",
            "  [assistant] ? | reply",
            "\n=== 7. FTS5 search test ===",
            "  \"import\": 1 hits",
            "  \"SQLite\": 2 hits",
            "  \"cargo\": 0 hits",
            "\nAll checks passed.",
        ]
    );
    assert_eq!(trace.end, Some(Ok(())));
}

#[test]
fn report_of_an_inconsistent_archive() {
    for (messages, indexed, duplicates) in [(3, 2, 0), (3, 3, 1), (3, 4, 2)] {
        let trace = play(verify(), check_replies(messages, indexed, duplicates));
        assert_eq!(trace.end, Some(Err(VaultError::VerificationFailed)));
        let lines = printed(trace.printed);
        let matched = if messages == indexed { "OK" } else { "FAIL" };
        assert_eq!(lines[10], format!("  Match: {matched}"));
        let unique = if duplicates == 0 { "OK" } else { "FAIL" };
        assert_eq!(lines[12], format!("  Duplicate UUIDs: {duplicates} {unique}"));
        // The report is complete but for its last line.
        assert_eq!(lines.last().unwrap(), "  \"cargo\": 0 hits");
    }
}

#[test]
fn report_stops_at_the_row_that_fails() {
    let broken = Reply {
        count: 0,
        rows: vec![vec![text("user"), Value::Integer(1)]],
        failure: Some("corrupt"),
    };
    let trace = play(verify(), vec![broken]);
    assert_eq!(printed(trace.printed), ["=== 1. Messages by role ===", "  user: 1"]);
    assert_eq!(trace.end, Some(Err(VaultError::Database { cause: "corrupt" })));
    let malformed = rows(vec![
        vec![text("user"), Value::Integer(1)],
        vec![text("system")],
        vec![text("assistant"), Value::Integer(1)],
    ]);
    let trace = play(verify(), vec![malformed]);
    assert_eq!(printed(trace.printed), ["=== 1. Messages by role ===", "  user: 1"]);
    assert_eq!(trace.end, Some(Err(VaultError::MalformedRow)));
}

#[test]
fn every_error_has_its_message() {
    let message = |error: VaultError<Cause>| error.message();
    assert_eq!(message(VaultError::Database { cause: "own words" }), None);
    assert_eq!(message(VaultError::NoRows).unwrap(), "Query returned no rows");
    assert_eq!(
        message(VaultError::MalformedRow).unwrap(),
        "A row lacks a column that was asked for"
    );
    assert_eq!(message(VaultError::VerificationFailed).unwrap(), "Verification failed");
    assert_eq!(
        message(VaultError::NoSessionAt { position: 12 }).unwrap(),
        "No session found at position 12"
    );
}
