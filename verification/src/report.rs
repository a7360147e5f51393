//! Checking the archive and reporting on it.
use vstd::prelude::*;
use crate::error::{ErrorModel, VaultError};
use crate::project::{format_project_name, project_name};
use crate::store::{count_request, fetch_count, COUNT_MESSAGES, COUNT_SESSIONS};
use crate::task::{
    ask, asked, finish, first_integer, integer_at, is_query, lemma_only_queries, lemma_run_at,
    optional_text_at, query_integer, read_integer, read_optional_text, read_text, run, text_at,
    text_value, Column, Line, LineModel, Next, NextModel, Reply, ReplyModel, Request, RequestModel,
    Statement, StatementModel, Step, StepModel, Task, Value, ValueModel,
};
use crate::text::{push_signed_decimal, replace, replaced, signed_decimal};

verus! {

pub const COUNT_BY_ROLE: &'static str = "SELECT role, COUNT(*) FROM messages GROUP BY role";

pub const COUNT_PROJECTS: &'static str = "SELECT COUNT(DISTINCT project) FROM sessions";

pub const SELECT_TOP_PROJECTS: &'static str = "SELECT s.project, COUNT(*) as cnt FROM messages m
     JOIN sessions s ON s.session_id = m.session_id
     GROUP BY s.project ORDER BY cnt DESC LIMIT 5";

pub const COUNT_INDEXED: &'static str = "SELECT COUNT(*) FROM messages_fts";

pub const COUNT_DUPLICATES: &'static str =
    "SELECT COUNT(*) FROM (SELECT uuid, COUNT(*) as cnt FROM messages WHERE uuid IS NOT NULL GROUP BY uuid HAVING cnt > 1)";

pub const SELECT_SAMPLES: &'static str = "SELECT m.role, substr(m.content, 1, 120), m.timestamp
     FROM messages m JOIN sessions s ON s.session_id = m.session_id
     ORDER BY m.timestamp DESC LIMIT 10";

pub const COUNT_MATCHES: &'static str =
    "SELECT COUNT(*) FROM messages_fts WHERE messages_fts MATCH ?1";

/// A part of the report with one line for each row of a reply.
#[derive(Clone, Copy)]
pub enum Section {
    Roles,
    TopProjects,
    Samples,
}

/// The line of the report for a row.
pub open spec fn line_for(section: Section, row: Seq<ValueModel>) -> Option<Seq<char>> {
    match section {
        Section::Roles => match (text_at(row, 0), integer_at(row, 1)) {
            (Some(role), Some(count)) => Some("  "@ + role + ": "@ + signed_decimal(count as int)),
            _ => None,
        },
        Section::TopProjects => match (text_at(row, 0), integer_at(row, 1)) {
            (Some(project), Some(count)) => Some(
                "  "@ + project_name(project) + ": "@ + signed_decimal(count as int),
            ),
            _ => None,
        },
        Section::Samples => match (text_at(row, 0), text_at(row, 1), optional_text_at(row, 2)) {
            (Some(role), Some(content), Some(timestamp)) => Some(
                "  ["@ + role + "] "@ + (match timestamp {
                    Some(timestamp) => timestamp,
                    None => "?"@,
                }) + " | "@ + replace(content, '\n', ' '),
            ),
            _ => None,
        },
    }
}

/// Writes `  name: count`.
fn counted(name: &str, count: i64) -> (line: String)
    ensures
        line@ == "  "@ + name@ + ": "@ + signed_decimal(count as int),
{
    let mut line = String::new();
    line.append("  ");
    line.append(name);
    line.append(": ");
    push_signed_decimal(&mut line, count);
    assert(line@ =~= "  "@ + name@ + ": "@ + signed_decimal(count as int));
    line
}

/// Writes the line of the report for a row.
fn describe(section: Section, row: &Vec<Value>) -> (line: Option<String>)
    ensures
        line.deep_view() == line_for(section, row.deep_view()),
{
    match section {
        Section::Roles => match (read_text(row, 0), read_integer(row, 1)) {
            (Some(role), Some(count)) => Some(counted(role.as_str(), count)),
            _ => None,
        },
        Section::TopProjects => match (read_text(row, 0), read_integer(row, 1)) {
            (Some(project), Some(count)) => {
                let name = format_project_name(project.as_str());
                Some(counted(name.as_str(), count))
            },
            _ => None,
        },
        Section::Samples => match (
            read_text(row, 0),
            read_text(row, 1),
            read_optional_text(row, 2),
        ) {
            (Some(role), Some(content), Some(timestamp)) => {
                let mut line = String::new();
                line.append("  [");
                line.append(role.as_str());
                line.append("] ");
                match &timestamp {
                    Some(timestamp) => line.append(timestamp.as_str()),
                    None => line.append("?"),
                }
                line.append(" | ");
                line.append(replaced(content.as_str(), '\n', ' ').as_str());
                assert(line@ =~= line_for(section, row.deep_view())->0);
                Some(line)
            },
            _ => None,
        },
    }
}

/// The lines for the rows of a reply, up to the first row that has none.
pub open spec fn lines_for<E>(section: Section, rows: Seq<Seq<ValueModel>>) -> Seq<LineModel<E>>
    decreases rows.len(),
{
    if rows.len() == 0 {
        seq![]
    } else {
        let before = lines_for(section, rows.drop_last());
        match line_for(section, rows.last()) {
            Some(line) if before.len() == rows.len() - 1 => before.push(LineModel::Output(line)),
            _ => before,
        }
    }
}

/// How the check goes on when a part of the report has been read: with the lines of
/// its rows, and then with `then` if nothing was wrong with the reply.
pub open spec fn after_section<S, T, E>(
    section: Section,
    reply: ReplyModel<E>,
    then: StepModel<S, T, E>,
) -> StepModel<S, T, E> {
    let lines = lines_for::<E>(section, reply.rows);
    if lines.len() < reply.rows.len() {
        StepModel { lines, next: NextModel::Failed(ErrorModel::MalformedRow) }
    } else {
        match reply.failure {
            Some(cause) => StepModel {
                lines,
                next: NextModel::Failed(ErrorModel::Database { cause }),
            },
            None => StepModel { lines: lines + then.lines, next: then.next },
        }
    }
}

/// A part of the report has one line for each row, in the order of the rows, where every
/// row has one.
pub proof fn law_every_row_is_reported<E>(section: Section, rows: Seq<Seq<ValueModel>>)
    requires
        forall|i: int| 0 <= i < rows.len() ==> line_for(section, #[trigger] rows[i]) is Some,
    ensures
        lines_for::<E>(section, rows) == Seq::new(
            rows.len(),
            |i: int| LineModel::<E>::Output(line_for(section, rows[i])->0),
        ),
    decreases rows.len(),
{
    if rows.len() > 0 {
        let head = rows.drop_last();
        assert forall|i: int| 0 <= i < head.len() implies line_for(
            section,
            #[trigger] head[i],
        ) is Some by {
            assert(head[i] == rows[i]);
        }
        law_every_row_is_reported::<E>(section, head);
        assert(rows.last() == rows[rows.len() - 1]);
    }
    assert(lines_for::<E>(section, rows) =~= Seq::new(
        rows.len(),
        |i: int| LineModel::<E>::Output(line_for(section, rows[i])->0),
    ));
}

/// Once a row has no line, the rows behind it add none.
pub proof fn lemma_lines_stop<E>(section: Section, rows: Seq<Seq<ValueModel>>, i: int)
    requires
        0 <= i < rows.len(),
        lines_for::<E>(section, rows.take(i)).len() == i,
        line_for(section, rows[i]) is None,
    ensures
        lines_for::<E>(section, rows) == lines_for::<E>(section, rows.take(i)),
    decreases rows.len(),
{
    let head = rows.drop_last();
    if i == rows.len() - 1 {
        assert(head =~= rows.take(i));
    } else {
        assert(head.take(i) =~= rows.take(i));
        lemma_lines_stop::<E>(section, head, i);
    }
}

/// Writes the lines of a part of the report and goes on with `then` if nothing was
/// wrong with the reply.
fn report_section<S: DeepView, T: DeepView, E>(
    section: Section,
    reply: Reply<E>,
    then: Step<S, T, E>,
) -> (step: Step<S, T, E>)
    ensures
        step.deep_view() == after_section(section, reply.deep_view(), then.deep_view()),
{
    let ghost model = reply.deep_view();
    let mut lines: Vec<Line<E>> = Vec::new();
    let mut i: usize = 0;
    assert(lines.deep_view() =~= lines_for::<E>(section, model.rows.take(0)));
    while i < reply.rows.len()
        invariant
            i <= reply.rows@.len(),
            model == reply.deep_view(),
            lines.deep_view() == lines_for::<E>(section, model.rows.take(i as int)),
            lines@.len() == i,
        decreases reply.rows@.len() - i,
    {
        let ghost before = lines.deep_view();
        match describe(section, &reply.rows[i]) {
            Some(line) => {
                let ghost text = line@;
                lines.push(Line::Output(line));
                assert(lines.deep_view() =~= before.push(LineModel::Output(text)));
            },
            None => {
                proof {
                    lemma_lines_stop::<E>(section, model.rows, i as int);
                }
                return Step { lines, next: Next::Failed(VaultError::MalformedRow) };
            },
        }
        i += 1;
        assert(model.rows.take(i as int).drop_last() =~= model.rows.take(i - 1));
        assert(model.rows.take(i as int).last() == model.rows[i - 1]);
    }
    assert(model.rows.take(model.rows.len() as int) =~= model.rows);
    match reply.failure {
        Some(cause) => Step { lines, next: Next::Failed(VaultError::Database { cause }) },
        None => {
            let ghost shown = lines.deep_view();
            let ghost more = then.lines.deep_view();
            let Step { lines: then_lines, next } = then;
            let mut then_lines = then_lines;
            lines.append(&mut then_lines);
            assert(lines.deep_view() =~= shown + more);
            Step { lines, next }
        },
    }
}

/// How far the check has come.
#[verifier::ext_equal]
pub enum VerifyModel {
    /// Waiting for the messages by role.
    Roles,
    /// Waiting for the number of sessions.
    Sessions,
    /// Waiting for the number of projects.
    Projects { sessions: i64 },
    /// Waiting for the projects with the most messages.
    TopProjects,
    /// Waiting for the number of messages.
    Messages,
    /// Waiting for the number of messages in the full-text index.
    Indexed { messages: i64 },
    /// Waiting for the number of identifiers that occur more than once.
    Duplicates { index_ok: bool },
    /// Waiting for the most recent messages.
    Samples { ok: bool },
    /// Waiting for the number of messages that match a search term.
    Matches { ok: bool, term: usize },
}

/// Checking the archive.
pub enum Verify {
    Roles,
    Sessions,
    Projects { sessions: i64 },
    TopProjects,
    Messages,
    Indexed { messages: i64 },
    Duplicates { index_ok: bool },
    Samples { ok: bool },
    Matches { ok: bool, term: usize },
}

impl DeepView for Verify {
    type V = VerifyModel;

    open spec fn deep_view(&self) -> VerifyModel {
        match self {
            Verify::Roles => VerifyModel::Roles,
            Verify::Sessions => VerifyModel::Sessions,
            Verify::Projects { sessions } => VerifyModel::Projects { sessions: *sessions },
            Verify::TopProjects => VerifyModel::TopProjects,
            Verify::Messages => VerifyModel::Messages,
            Verify::Indexed { messages } => VerifyModel::Indexed { messages: *messages },
            Verify::Duplicates { index_ok } => VerifyModel::Duplicates { index_ok: *index_ok },
            Verify::Samples { ok } => VerifyModel::Samples { ok: *ok },
            Verify::Matches { ok, term } => VerifyModel::Matches { ok: *ok, term: *term },
        }
    }
}

/// The search terms that are tried, by their index.
pub open spec fn search_term(term: usize) -> Seq<char> {
    if term == 0 {
        "import"@
    } else if term == 1 {
        "SQLite"@
    } else {
        "cargo"@
    }
}

/// The verdict on a part of the check.
pub open spec fn verdict(ok: bool) -> Seq<char> {
    if ok {
        "OK"@
    } else {
        "FAIL"@
    }
}

/// Texts for the standard output.
pub open spec fn outputs<E>(texts: Seq<Seq<char>>) -> Seq<LineModel<E>> {
    texts.map_values(|text: Seq<char>| LineModel::Output(text))
}

/// The step that prints `texts` and asks for `request`.
pub open spec fn print_and_ask<E>(
    texts: Seq<Seq<char>>,
    state: VerifyModel,
    request: RequestModel,
) -> StepModel<VerifyModel, (), E> {
    StepModel { lines: outputs(texts), next: NextModel::Ask(state, request) }
}

/// The request for the rows that `sql` gives.
pub open spec fn fetch_rows(sql: Seq<char>, columns: Seq<Column>) -> RequestModel {
    RequestModel::FetchAll { statement: StatementModel { sql, params: seq![] }, columns }
}

/// The request for the number of messages that match `term`.
pub open spec fn fetch_matches(term: Seq<char>) -> RequestModel {
    RequestModel::FetchFirst {
        statement: StatementModel {
            sql: COUNT_MATCHES@,
            params: seq![ValueModel::Text(term)],
        },
        columns: seq![Column::Integer],
    }
}

/// The term with index `term`.
fn search_term_text(term: usize) -> (text: &'static str)
    ensures
        text@ == search_term(term),
{
    if term == 0 {
        "import"
    } else if term == 1 {
        "SQLite"
    } else {
        "cargo"
    }
}

/// Prints `texts` and then goes on with `next`.
fn print<E>(texts: Vec<String>, next: Next<Verify, (), E>) -> (step: Step<Verify, (), E>)
    ensures
        step.deep_view() == (StepModel {
            lines: outputs(texts.deep_view()),
            next: next.deep_view(),
        }),
{
    let ghost all = outputs::<E>(texts.deep_view());
    let mut lines: Vec<Line<E>> = Vec::new();
    let mut i: usize = 0;
    assert(lines.deep_view() =~= all.take(0));
    while i < texts.len()
        invariant
            i <= texts@.len(),
            all == outputs::<E>(texts.deep_view()),
            lines.deep_view() == all.take(i as int),
        decreases texts@.len() - i,
    {
        let ghost before = lines.deep_view();
        lines.push(Line::Output(texts[i].clone()));
        assert(lines.deep_view() =~= before.push(all[i as int]));
        i += 1;
        assert(all.take(i as int) =~= all.take(i - 1).push(all[i - 1]));
    }
    assert(all.take(all.len() as int) =~= all);
    Step { lines, next }
}

/// Asks for the rows that `sql` gives.
fn rows_request(sql: &str, columns: Vec<Column>) -> (request: Request)
    ensures
        request.deep_view() == fetch_rows(sql@, columns.deep_view()),
{
    let params: Vec<Value> = Vec::new();
    assert(params.deep_view() =~= seq![]);
    Request::FetchAll { statement: Statement { sql: sql.to_string(), params }, columns }
}

/// Asks for the number of messages that match `term`.
fn matches_request(term: &str) -> (request: Request)
    ensures
        request.deep_view() == fetch_matches(term@),
{
    let params: Vec<Value> = vec![text_value(term)];
    let columns: Vec<Column> = vec![Column::Integer];
    assert(params.deep_view() =~= seq![ValueModel::Text(term@)]);
    assert(columns.deep_view() =~= seq![Column::Integer]);
    let statement = Statement { sql: COUNT_MATCHES.to_string(), params };
    Request::FetchFirst { statement, columns }
}

/// The first step of a check.
pub open spec fn count_by_role<E>() -> StepModel<VerifyModel, (), E> {
    print_and_ask(
        seq!["=== 1. Messages by role ==="@],
        VerifyModel::Roles,
        fetch_rows(COUNT_BY_ROLE@, seq![Column::Text, Column::Integer]),
    )
}

/// Checks the archive and reports on it: it is an error that the full-text index
/// does not hold as many messages as there are, or that the identifier of a message
/// occurs more than once.
pub fn verify<E>() -> (step: Step<Verify, (), E>)
    ensures
        step.deep_view() == count_by_role::<E>(),
{
    let texts: Vec<String> = vec!["=== 1. Messages by role ===".to_string()];
    let columns: Vec<Column> = vec![Column::Text, Column::Integer];
    assert(texts.deep_view() =~= seq!["=== 1. Messages by role ==="@]);
    assert(columns.deep_view() =~= seq![Column::Text, Column::Integer]);
    print(texts, Next::Ask(Verify::Roles, rows_request(COUNT_BY_ROLE, columns)))
}

/// The step behind the messages by role.
pub open spec fn count_sessions<E>() -> StepModel<VerifyModel, (), E> {
    print_and_ask(
        seq!["\n=== 2. Sessions and projects ==="@],
        VerifyModel::Sessions,
        fetch_count(COUNT_SESSIONS@),
    )
}

/// The step behind the number of projects.
pub open spec fn rank_projects<E>(sessions: i64, projects: i64) -> StepModel<VerifyModel, (), E> {
    print_and_ask(
        seq![
            "  Sessions: "@ + signed_decimal(sessions as int) + ", Projects: "@ + signed_decimal(
                projects as int,
            ),
            "\n=== 3. Top 5 projects by message count ==="@,
        ],
        VerifyModel::TopProjects,
        fetch_rows(SELECT_TOP_PROJECTS@, seq![Column::Text, Column::Integer]),
    )
}

/// The step behind the projects with the most messages.
pub open spec fn count_messages<E>() -> StepModel<VerifyModel, (), E> {
    print_and_ask(
        seq!["\n=== 4. FTS index integrity ==="@],
        VerifyModel::Messages,
        fetch_count(COUNT_MESSAGES@),
    )
}

/// The step behind the number of messages in the full-text index.
pub open spec fn count_duplicates<E>(messages: i64, indexed: i64) -> StepModel<
    VerifyModel,
    (),
    E,
> {
    print_and_ask(
        seq![
            "  messages: "@ + signed_decimal(messages as int) + " rows"@,
            "  messages_fts: "@ + signed_decimal(indexed as int) + " rows"@,
            "  Match: "@ + verdict(messages == indexed),
            "\n=== 5. UUID deduplication ==="@,
        ],
        VerifyModel::Duplicates { index_ok: messages == indexed },
        fetch_count(COUNT_DUPLICATES@),
    )
}

/// The step behind the number of identifiers that occur more than once.
pub open spec fn show_samples<E>(index_ok: bool, duplicates: i64) -> StepModel<
    VerifyModel,
    (),
    E,
> {
    print_and_ask(
        seq![
            "  Duplicate UUIDs: "@ + signed_decimal(duplicates as int) + " "@ + verdict(
                duplicates == 0,
            ),
            "\n=== 6. Recent message samples ==="@,
        ],
        VerifyModel::Samples { ok: index_ok && duplicates == 0 },
        fetch_rows(SELECT_SAMPLES@, seq![Column::Text, Column::Text, Column::OptionalText]),
    )
}

/// The step behind the most recent messages.
pub open spec fn try_searches<E>(ok: bool) -> StepModel<VerifyModel, (), E> {
    print_and_ask(
        seq!["\n=== 7. FTS5 search test ==="@],
        VerifyModel::Matches { ok, term: 0 },
        fetch_matches(search_term(0)),
    )
}

/// The line for the number of messages that match a search term.
pub open spec fn hits(term: usize, count: i64) -> Seq<char> {
    "  \""@ + search_term(term) + "\": "@ + signed_decimal(count as int) + " hits"@
}

/// The step behind the number of messages that match a search term.
pub open spec fn next_search<E>(ok: bool, term: usize, count: i64) -> StepModel<
    VerifyModel,
    (),
    E,
> {
    if term < 2 {
        print_and_ask(
            seq![hits(term, count)],
            VerifyModel::Matches { ok, term: (term + 1) as usize },
            fetch_matches(search_term((term + 1) as usize)),
        )
    } else if ok {
        StepModel {
            lines: outputs(seq![hits(term, count), "\nAll checks passed."@]),
            next: NextModel::Done(()),
        }
    } else {
        StepModel {
            lines: outputs(seq![hits(term, count)]),
            next: NextModel::Failed(ErrorModel::VerificationFailed),
        }
    }
}

/// Goes on behind the messages by role.
fn ask_sessions<E>() -> (step: Step<Verify, (), E>)
    ensures
        step.deep_view() == count_sessions::<E>(),
{
    let texts: Vec<String> = vec!["\n=== 2. Sessions and projects ===".to_string()];
    assert(texts.deep_view() =~= seq!["\n=== 2. Sessions and projects ==="@]);
    print(texts, Next::Ask(Verify::Sessions, count_request(COUNT_SESSIONS)))
}

/// Goes on behind the number of projects.
fn ask_top_projects<E>(sessions: i64, projects: i64) -> (step: Step<Verify, (), E>)
    ensures
        step.deep_view() == rank_projects::<E>(sessions, projects),
{
    let mut line = "  Sessions: ".to_string();
    push_signed_decimal(&mut line, sessions);
    line.append(", Projects: ");
    push_signed_decimal(&mut line, projects);
    let ghost first = line@;
    let texts: Vec<String> = vec![
        line,
        "\n=== 3. Top 5 projects by message count ===".to_string(),
    ];
    let columns: Vec<Column> = vec![Column::Text, Column::Integer];
    assert(texts.deep_view() =~= seq![first, "\n=== 3. Top 5 projects by message count ==="@]);
    assert(columns.deep_view() =~= seq![Column::Text, Column::Integer]);
    print(texts, Next::Ask(Verify::TopProjects, rows_request(SELECT_TOP_PROJECTS, columns)))
}

/// Goes on behind the projects with the most messages.
fn ask_messages<E>() -> (step: Step<Verify, (), E>)
    ensures
        step.deep_view() == count_messages::<E>(),
{
    let texts: Vec<String> = vec!["\n=== 4. FTS index integrity ===".to_string()];
    assert(texts.deep_view() =~= seq!["\n=== 4. FTS index integrity ==="@]);
    print(texts, Next::Ask(Verify::Messages, count_request(COUNT_MESSAGES)))
}

/// The verdict on a part of the check.
fn verdict_text(ok: bool) -> (text: &'static str)
    ensures
        text@ == verdict(ok),
{
    if ok {
        "OK"
    } else {
        "FAIL"
    }
}

/// Goes on behind the number of messages in the full-text index.
fn ask_duplicates<E>(messages: i64, indexed: i64) -> (step: Step<Verify, (), E>)
    ensures
        step.deep_view() == count_duplicates::<E>(messages, indexed),
{
    let index_ok = messages == indexed;
    let mut first = "  messages: ".to_string();
    push_signed_decimal(&mut first, messages);
    first.append(" rows");
    let mut second = "  messages_fts: ".to_string();
    push_signed_decimal(&mut second, indexed);
    second.append(" rows");
    let mut third = "  Match: ".to_string();
    third.append(verdict_text(index_ok));
    let ghost shown = seq![first@, second@, third@, "\n=== 5. UUID deduplication ==="@];
    let texts: Vec<String> = vec![
        first,
        second,
        third,
        "\n=== 5. UUID deduplication ===".to_string(),
    ];
    assert(texts.deep_view() =~= shown);
    print(texts, Next::Ask(Verify::Duplicates { index_ok }, count_request(COUNT_DUPLICATES)))
}

/// Goes on behind the number of identifiers that occur more than once.
fn ask_samples<E>(index_ok: bool, duplicates: i64) -> (step: Step<Verify, (), E>)
    ensures
        step.deep_view() == show_samples::<E>(index_ok, duplicates),
{
    let none = duplicates == 0;
    let mut line = "  Duplicate UUIDs: ".to_string();
    push_signed_decimal(&mut line, duplicates);
    line.append(" ");
    line.append(verdict_text(none));
    let ghost first = line@;
    let texts: Vec<String> = vec![line, "\n=== 6. Recent message samples ===".to_string()];
    let columns: Vec<Column> = vec![Column::Text, Column::Text, Column::OptionalText];
    assert(texts.deep_view() =~= seq![first, "\n=== 6. Recent message samples ==="@]);
    assert(columns.deep_view() =~= seq![Column::Text, Column::Text, Column::OptionalText]);
    print(
        texts,
        Next::Ask(Verify::Samples { ok: index_ok && none }, rows_request(SELECT_SAMPLES, columns)),
    )
}

/// Goes on behind the most recent messages.
fn ask_first_search<E>(ok: bool) -> (step: Step<Verify, (), E>)
    ensures
        step.deep_view() == try_searches::<E>(ok),
{
    let texts: Vec<String> = vec!["\n=== 7. FTS5 search test ===".to_string()];
    assert(texts.deep_view() =~= seq!["\n=== 7. FTS5 search test ==="@]);
    print(
        texts,
        Next::Ask(Verify::Matches { ok, term: 0 }, matches_request(search_term_text(0))),
    )
}

/// Goes on behind the number of messages that match a search term.
fn ask_next_search<E>(ok: bool, term: usize, count: i64) -> (step: Step<Verify, (), E>)
    ensures
        step.deep_view() == next_search::<E>(ok, term, count),
{
    let mut line = "  \"".to_string();
    line.append(search_term_text(term));
    line.append("\": ");
    push_signed_decimal(&mut line, count);
    line.append(" hits");
    let ghost first = line@;
    let mut texts: Vec<String> = vec![line];
    assert(texts.deep_view() =~= seq![first]);
    if term < 2 {
        let following: usize = term + 1;
        print(
            texts,
            Next::Ask(
                Verify::Matches { ok, term: following },
                matches_request(search_term_text(following)),
            ),
        )
    } else if ok {
        texts.push("\nAll checks passed.".to_string());
        assert(texts.deep_view() =~= seq![first, "\nAll checks passed."@]);
        print(texts, Next::Done(()))
    } else {
        print(texts, Next::Failed(VaultError::VerificationFailed))
    }
}

impl<E> Task<E> for Verify {
    type Output = ();

    open spec fn after(state: VerifyModel, reply: ReplyModel<E>) -> StepModel<VerifyModel, (), E> {
        match state {
            VerifyModel::Roles => after_section(Section::Roles, reply, count_sessions()),
            VerifyModel::TopProjects => after_section(
                Section::TopProjects,
                reply,
                count_messages(),
            ),
            VerifyModel::Samples { ok } => after_section(
                Section::Samples,
                reply,
                try_searches(ok),
            ),
            VerifyModel::Sessions => match first_integer(reply) {
                Ok(n) => StepModel::ask(
                    VerifyModel::Projects { sessions: n },
                    fetch_count(COUNT_PROJECTS@),
                ),
                Err(error) => StepModel::finish(Err(error)),
            },
            VerifyModel::Projects { sessions } => match first_integer(reply) {
                Ok(n) => rank_projects(sessions, n),
                Err(error) => StepModel::finish(Err(error)),
            },
            VerifyModel::Messages => match first_integer(reply) {
                Ok(n) => StepModel::ask(
                    VerifyModel::Indexed { messages: n },
                    fetch_count(COUNT_INDEXED@),
                ),
                Err(error) => StepModel::finish(Err(error)),
            },
            VerifyModel::Indexed { messages } => match first_integer(reply) {
                Ok(n) => count_duplicates(messages, n),
                Err(error) => StepModel::finish(Err(error)),
            },
            VerifyModel::Duplicates { index_ok } => match first_integer(reply) {
                Ok(n) => show_samples(index_ok, n),
                Err(error) => StepModel::finish(Err(error)),
            },
            VerifyModel::Matches { ok, term } => match first_integer(reply) {
                Ok(n) => next_search(ok, term, n),
                Err(error) => StepModel::finish(Err(error)),
            },
        }
    }

    fn resume(self, reply: Reply<E>) -> (step: Step<Self, (), E>) {
        match self {
            Verify::Roles => report_section(Section::Roles, reply, ask_sessions()),
            Verify::TopProjects => report_section(Section::TopProjects, reply, ask_messages()),
            Verify::Samples { ok } => report_section(
                Section::Samples,
                reply,
                ask_first_search(ok),
            ),
            Verify::Sessions => match query_integer(reply) {
                Ok(sessions) => ask(
                    Verify::Projects { sessions },
                    count_request(COUNT_PROJECTS),
                ),
                Err(error) => finish(Err(error)),
            },
            Verify::Projects { sessions } => match query_integer(reply) {
                Ok(projects) => ask_top_projects(sessions, projects),
                Err(error) => finish(Err(error)),
            },
            Verify::Messages => match query_integer(reply) {
                Ok(messages) => ask(Verify::Indexed { messages }, count_request(COUNT_INDEXED)),
                Err(error) => finish(Err(error)),
            },
            Verify::Indexed { messages } => match query_integer(reply) {
                Ok(indexed) => ask_duplicates(messages, indexed),
                Err(error) => finish(Err(error)),
            },
            Verify::Duplicates { index_ok } => match query_integer(reply) {
                Ok(duplicates) => ask_samples(index_ok, duplicates),
                Err(error) => finish(Err(error)),
            },
            Verify::Matches { ok, term } => match query_integer(reply) {
                Ok(count) => ask_next_search(ok, term, count),
                Err(error) => finish(Err(error)),
            },
        }
    }
}

/// Whether a reply has a line for each of its rows and no failure behind them.
pub open spec fn section_ok<E>(section: Section, reply: ReplyModel<E>) -> bool {
    lines_for::<E>(section, reply.rows).len() == reply.rows.len() && reply.failure is None
}

/// The verdict of a check whose requests all succeed: it passes exactly where the
/// full-text index holds as many messages as there are and no identifier occurs more
/// than once.
#[verifier::rlimit(30)]
pub proof fn law_the_verdict<E>(
    replies: Seq<ReplyModel<E>>,
    messages: i64,
    indexed: i64,
    duplicates: i64,
)
    requires
        replies.len() == 11,
        section_ok(Section::Roles, replies[0]),
        first_integer(replies[1]) is Ok,
        first_integer(replies[2]) is Ok,
        section_ok(Section::TopProjects, replies[3]),
        first_integer(replies[4]) == Ok::<i64, ErrorModel<E>>(messages),
        first_integer(replies[5]) == Ok::<i64, ErrorModel<E>>(indexed),
        first_integer(replies[6]) == Ok::<i64, ErrorModel<E>>(duplicates),
        section_ok(Section::Samples, replies[7]),
        first_integer(replies[8]) is Ok,
        first_integer(replies[9]) is Ok,
        first_integer(replies[10]) is Ok,
    ensures
        run::<Verify, E>(count_by_role::<E>(), replies).next == if messages == indexed && duplicates == 0 {
            NextModel::<VerifyModel, (), E>::Done(())
        } else {
            NextModel::<VerifyModel, (), E>::Failed(ErrorModel::VerificationFailed)
        },
{
    let start = count_by_role::<E>();
    let s1 = <Verify as Task<E>>::after(VerifyModel::Roles, replies[0]);
    lemma_run_at::<Verify, E>(start, replies, 0);
    let s2 = <Verify as Task<E>>::after(s1.next->Ask_0, replies[1]);
    lemma_run_at::<Verify, E>(s1, replies, 1);
    let s3 = <Verify as Task<E>>::after(s2.next->Ask_0, replies[2]);
    lemma_run_at::<Verify, E>(s2, replies, 2);
    let s4 = <Verify as Task<E>>::after(s3.next->Ask_0, replies[3]);
    lemma_run_at::<Verify, E>(s3, replies, 3);
    let s5 = <Verify as Task<E>>::after(s4.next->Ask_0, replies[4]);
    lemma_run_at::<Verify, E>(s4, replies, 4);
    let s6 = <Verify as Task<E>>::after(s5.next->Ask_0, replies[5]);
    lemma_run_at::<Verify, E>(s5, replies, 5);
    let s7 = <Verify as Task<E>>::after(s6.next->Ask_0, replies[6]);
    lemma_run_at::<Verify, E>(s6, replies, 6);
    let s8 = <Verify as Task<E>>::after(s7.next->Ask_0, replies[7]);
    lemma_run_at::<Verify, E>(s7, replies, 7);
    let s9 = <Verify as Task<E>>::after(s8.next->Ask_0, replies[8]);
    lemma_run_at::<Verify, E>(s8, replies, 8);
    let s10 = <Verify as Task<E>>::after(s9.next->Ask_0, replies[9]);
    lemma_run_at::<Verify, E>(s9, replies, 9);
    lemma_run_at::<Verify, E>(s10, replies, 10);
    assert(replies.skip(0) =~= replies);
}

/// A check changes nothing: it only reads rows, however its requests are answered.
pub proof fn law_checking_only_reads<E>(replies: Seq<ReplyModel<E>>)
    ensures
        forall|i: int|
            0 <= i < asked::<Verify, E>(count_by_role::<E>(), replies).len() ==> is_query(
                #[trigger] asked::<Verify, E>(count_by_role::<E>(), replies)[i],
            ),
{
    lemma_only_queries::<Verify, E>(count_by_role::<E>(), replies);
}

} // verus!
