//! What a check prints and what it asks for, over the numbers and the rows that it is given.
use vstd::prelude::*;
use crate::laws::answered;
use crate::project::project_name;
use crate::report::{
    count_by_role, law_every_row_is_reported, line_for, lines_for, rank_projects, show_samples,
    Section, Verify,
};
use crate::task::{
    asked, lemma_run_at, printed, Column, LineModel, ReplyModel, RequestModel, StatementModel, Task,
    ValueModel,
};
use crate::text::{replace, signed_decimal};

verus! {

/// A name with a number.
pub struct Counted {
    pub name: Seq<char>,
    pub count: i64,
}

/// A message in a report.
pub struct Sample {
    pub role: Seq<char>,
    pub content: Seq<char>,
    pub timestamp: Option<Seq<char>>,
}

/// The row of a name with a number.
pub open spec fn counted_row(counted: Counted) -> Seq<ValueModel> {
    seq![ValueModel::Text(counted.name), ValueModel::Integer(counted.count)]
}

/// The row of a message in a report.
pub open spec fn sample_row(sample: Sample) -> Seq<ValueModel> {
    seq![
        ValueModel::Text(sample.role),
        ValueModel::Text(sample.content),
        match sample.timestamp {
            Some(text) => ValueModel::Text(text),
            None => ValueModel::Null,
        },
    ]
}

/// The line of a name with a number.
pub open spec fn count_line<E>(name: Seq<char>, count: i64) -> LineModel<E> {
    LineModel::Output("  "@ + name + ": "@ + signed_decimal(count as int))
}

/// The line of a message: its role, its time or a question mark, and its content on one line.
pub open spec fn sample_line<E>(sample: Sample) -> LineModel<E> {
    LineModel::Output(
        "  ["@ + sample.role + "] "@ + (if sample.timestamp is Some {
            sample.timestamp->0
        } else {
            "?"@
        }) + " | "@ + replace(sample.content, '\n', ' '),
    )
}

/// The line of a search term with the number of messages that match it.
pub open spec fn term_line<E>(term: Seq<char>, count: i64) -> LineModel<E> {
    LineModel::Output("  \""@ + term + "\": "@ + signed_decimal(count as int) + " hits"@)
}

/// Whether a part of a check is all right, in words.
pub open spec fn in_words(ok: bool) -> Seq<char> {
    if ok {
        "OK"@
    } else {
        "FAIL"@
    }
}

/// What a check knows when it is over.
pub struct Facts {
    pub roles: Seq<Counted>,
    pub sessions: i64,
    pub projects: i64,
    pub top_projects: Seq<Counted>,
    pub messages: i64,
    pub indexed: i64,
    pub duplicates: i64,
    pub samples: Seq<Sample>,
    pub imports: i64,
    pub databases: i64,
    pub cargos: i64,
}

/// Whether a reply gives one number.
pub open spec fn gives<E>(reply: ReplyModel<E>, n: i64) -> bool {
    reply.rows == seq![seq![ValueModel::Integer(n)]]
}

/// Whether the replies give the facts, in the order in which a check asks for them.
pub open spec fn tell<E>(replies: Seq<ReplyModel<E>>, facts: Facts) -> bool {
    &&& replies.len() == 11
    &&& answered(replies)
    &&& replies[0].rows == facts.roles.map_values(|c: Counted| counted_row(c))
    &&& gives(replies[1], facts.sessions)
    &&& gives(replies[2], facts.projects)
    &&& replies[3].rows == facts.top_projects.map_values(|c: Counted| counted_row(c))
    &&& gives(replies[4], facts.messages)
    &&& gives(replies[5], facts.indexed)
    &&& gives(replies[6], facts.duplicates)
    &&& replies[7].rows == facts.samples.map_values(|s: Sample| sample_row(s))
    &&& gives(replies[8], facts.imports)
    &&& gives(replies[9], facts.databases)
    &&& gives(replies[10], facts.cargos)
}

/// The report on the facts.
pub open spec fn report_on<E>(facts: Facts) -> Seq<LineModel<E>> {
    seq![LineModel::Output("=== 1. Messages by role ==="@)] + facts.roles.map_values(
        |c: Counted| count_line::<E>(c.name, c.count),
    ) + seq![
        LineModel::Output("\n=== 2. Sessions and projects ==="@),
        LineModel::Output(
            "  Sessions: "@ + signed_decimal(facts.sessions as int) + ", Projects: "@
                + signed_decimal(facts.projects as int),
        ),
        LineModel::Output("\n=== 3. Top 5 projects by message count ==="@),
    ] + facts.top_projects.map_values(
        |c: Counted| count_line::<E>(project_name(c.name), c.count),
    ) + seq![
        LineModel::Output("\n=== 4. FTS index integrity ==="@),
        LineModel::Output("  messages: "@ + signed_decimal(facts.messages as int) + " rows"@),
        LineModel::Output("  messages_fts: "@ + signed_decimal(facts.indexed as int) + " rows"@),
        LineModel::Output("  Match: "@ + in_words(facts.messages == facts.indexed)),
        LineModel::Output("\n=== 5. UUID deduplication ==="@),
        LineModel::Output(
            "  Duplicate UUIDs: "@ + signed_decimal(facts.duplicates as int) + " "@ + in_words(
                facts.duplicates == 0,
            ),
        ),
        LineModel::Output("\n=== 6. Recent message samples ==="@),
    ] + facts.samples.map_values(|s: Sample| sample_line::<E>(s)) + seq![
        LineModel::Output("\n=== 7. FTS5 search test ==="@),
        term_line("import"@, facts.imports),
        term_line("SQLite"@, facts.databases),
        term_line("cargo"@, facts.cargos),
    ] + (if facts.messages == facts.indexed && facts.duplicates == 0 {
        seq![LineModel::Output("\nAll checks passed."@)]
    } else {
        seq![]
    })
}

/// The request for the one number that `sql` gives.
pub open spec fn number_asked(sql: Seq<char>, params: Seq<ValueModel>) -> RequestModel {
    RequestModel::FetchFirst {
        statement: StatementModel { sql, params },
        columns: seq![Column::Integer],
    }
}

/// The request for the rows that `sql` gives.
pub open spec fn rows_asked(sql: Seq<char>, columns: Seq<Column>) -> RequestModel {
    RequestModel::FetchAll { statement: StatementModel { sql, params: seq![] }, columns }
}

/// The request for the number of messages that match `term`.
pub open spec fn matches_asked(term: Seq<char>) -> RequestModel {
    number_asked(
        "SELECT COUNT(*) FROM messages_fts WHERE messages_fts MATCH ?1"@,
        seq![ValueModel::Text(term)],
    )
}

/// Rows of names with numbers are reported by a line each.
proof fn lemma_counted_lines<E>(section: Section, all: Seq<Counted>)
    requires
        !(section is Samples),
    ensures
        lines_for::<E>(
            section,
            all.map_values(|c: Counted| counted_row(c)),
        ) == all.map_values(
            |c: Counted|
                count_line::<E>(
                    if section is Roles {
                        c.name
                    } else {
                        project_name(c.name)
                    },
                    c.count,
                ),
        ),
{
    let rows = all.map_values(|c: Counted| counted_row(c));
    assert forall|i: int| 0 <= i < rows.len() implies line_for(section, #[trigger] rows[i])
        is Some && LineModel::<E>::Output(line_for(section, rows[i])->0) == count_line::<E>(
        if section is Roles {
            all[i].name
        } else {
            project_name(all[i].name)
        },
        all[i].count,
    ) by {
        assert(rows[i] == counted_row(all[i]));
    }
    law_every_row_is_reported::<E>(section, rows);
    assert(lines_for::<E>(section, rows) =~= all.map_values(
        |c: Counted|
            count_line::<E>(
                if section is Roles {
                    c.name
                } else {
                    project_name(c.name)
                },
                c.count,
            ),
    ));
}

/// Rows of messages are reported by a line each.
proof fn lemma_sample_lines<E>(all: Seq<Sample>)
    ensures
        lines_for::<E>(
            Section::Samples,
            all.map_values(|s: Sample| sample_row(s)),
        ) == all.map_values(|s: Sample| sample_line::<E>(s)),
{
    let rows = all.map_values(|s: Sample| sample_row(s));
    assert forall|i: int| 0 <= i < rows.len() implies line_for(
        Section::Samples,
        #[trigger] rows[i],
    ) is Some && LineModel::<E>::Output(line_for(Section::Samples, rows[i])->0) == sample_line::<E>(
        all[i],
    ) by {
        assert(rows[i] == sample_row(all[i]));
    }
    law_every_row_is_reported::<E>(Section::Samples, rows);
    assert(lines_for::<E>(Section::Samples, rows) =~= all.map_values(
        |s: Sample| sample_line::<E>(s),
    ));
}

/// A check up to the number of projects.
proof fn lemma_first_part<E>(replies: Seq<ReplyModel<E>>, facts: Facts)
    requires
        tell(replies, facts),
    ensures
        ({
            let s3 = rank_projects::<E>(facts.sessions, facts.projects);
            &&& printed::<Verify, E>(count_by_role::<E>(), replies) == seq![
                LineModel::<E>::Output("=== 1. Messages by role ==="@),
            ] + facts.roles.map_values(|c: Counted| count_line::<E>(c.name, c.count)) + seq![
                LineModel::<E>::Output("\n=== 2. Sessions and projects ==="@),
            ] + printed::<Verify, E>(s3, replies.skip(3))
            &&& asked::<Verify, E>(count_by_role::<E>(), replies) == seq![
                rows_asked(
                    "SELECT role, COUNT(*) FROM messages GROUP BY role"@,
                    seq![Column::Text, Column::Integer],
                ),
                number_asked("SELECT COUNT(*) FROM sessions"@, seq![]),
                number_asked("SELECT COUNT(DISTINCT project) FROM sessions"@, seq![]),
            ] + asked::<Verify, E>(s3, replies.skip(3))
        }),
{
    assert(forall|i: int| 0 <= i < 11 ==> (#[trigger] replies[i]).failure is None);
    lemma_counted_lines::<E>(Section::Roles, facts.roles);
    let s0 = count_by_role::<E>();
    let s1 = <Verify as Task<E>>::after(s0.next->Ask_0, replies[0]);
    let s2 = <Verify as Task<E>>::after(s1.next->Ask_0, replies[1]);
    let s3 = <Verify as Task<E>>::after(s2.next->Ask_0, replies[2]);
    assert(s3 == rank_projects::<E>(facts.sessions, facts.projects));
    lemma_run_at::<Verify, E>(s0, replies, 0);
    lemma_run_at::<Verify, E>(s1, replies, 1);
    lemma_run_at::<Verify, E>(s2, replies, 2);
    assert(replies.skip(0) =~= replies);
    assert(printed::<Verify, E>(s0, replies) =~= seq![
        LineModel::<E>::Output("=== 1. Messages by role ==="@),
    ] + facts.roles.map_values(|c: Counted| count_line::<E>(c.name, c.count)) + seq![
        LineModel::<E>::Output("\n=== 2. Sessions and projects ==="@),
    ] + printed::<Verify, E>(s3, replies.skip(3)));
}

/// A check from the number of projects to that of the duplicates.
proof fn lemma_second_part<E>(replies: Seq<ReplyModel<E>>, facts: Facts)
    requires
        tell(replies, facts),
    ensures
        ({
            let s3 = rank_projects::<E>(facts.sessions, facts.projects);
            let s7 = show_samples::<E>(facts.messages == facts.indexed, facts.duplicates);
            &&& printed::<Verify, E>(s3, replies.skip(3)) == seq![
                LineModel::<E>::Output(
                    "  Sessions: "@ + signed_decimal(facts.sessions as int) + ", Projects: "@
                        + signed_decimal(facts.projects as int),
                ),
                LineModel::<E>::Output("\n=== 3. Top 5 projects by message count ==="@),
            ] + facts.top_projects.map_values(
                |c: Counted| count_line::<E>(project_name(c.name), c.count),
            ) + seq![
                LineModel::<E>::Output("\n=== 4. FTS index integrity ==="@),
                LineModel::<E>::Output(
                    "  messages: "@ + signed_decimal(facts.messages as int) + " rows"@,
                ),
                LineModel::<E>::Output(
                    "  messages_fts: "@ + signed_decimal(facts.indexed as int) + " rows"@,
                ),
                LineModel::<E>::Output("  Match: "@ + in_words(facts.messages == facts.indexed)),
                LineModel::<E>::Output("\n=== 5. UUID deduplication ==="@),
            ] + printed::<Verify, E>(s7, replies.skip(7))
            &&& asked::<Verify, E>(s3, replies.skip(3)) == seq![
                rows_asked(
                    "SELECT s.project, COUNT(*) as cnt FROM messages m
     JOIN sessions s ON s.session_id = m.session_id
     GROUP BY s.project ORDER BY cnt DESC LIMIT 5"@,
                    seq![Column::Text, Column::Integer],
                ),
                number_asked("SELECT COUNT(*) FROM messages"@, seq![]),
                number_asked("SELECT COUNT(*) FROM messages_fts"@, seq![]),
                number_asked(
                    "SELECT COUNT(*) FROM (SELECT uuid, COUNT(*) as cnt FROM messages WHERE uuid IS NOT NULL GROUP BY uuid HAVING cnt > 1)"@,
                    seq![],
                ),
            ] + asked::<Verify, E>(s7, replies.skip(7))
        }),
{
    assert(forall|i: int| 0 <= i < 11 ==> (#[trigger] replies[i]).failure is None);
    lemma_counted_lines::<E>(Section::TopProjects, facts.top_projects);
    let s3 = rank_projects::<E>(facts.sessions, facts.projects);
    let s4 = <Verify as Task<E>>::after(s3.next->Ask_0, replies[3]);
    let s5 = <Verify as Task<E>>::after(s4.next->Ask_0, replies[4]);
    let s6 = <Verify as Task<E>>::after(s5.next->Ask_0, replies[5]);
    let s7 = <Verify as Task<E>>::after(s6.next->Ask_0, replies[6]);
    assert(s7 == show_samples::<E>(facts.messages == facts.indexed, facts.duplicates));
    lemma_run_at::<Verify, E>(s3, replies, 3);
    lemma_run_at::<Verify, E>(s4, replies, 4);
    lemma_run_at::<Verify, E>(s5, replies, 5);
    lemma_run_at::<Verify, E>(s6, replies, 6);
    let tops = facts.top_projects.map_values(
        |c: Counted| count_line::<E>(project_name(c.name), c.count),
    );
    assert(s4.lines =~= tops + seq![LineModel::<E>::Output("\n=== 4. FTS index integrity ==="@)]);
    assert(s5.lines.len() == 0);
}

/// A check from the number of duplicates on.
proof fn lemma_third_part<E>(replies: Seq<ReplyModel<E>>, facts: Facts)
    requires
        tell(replies, facts),
    ensures
        ({
            let s7 = show_samples::<E>(facts.messages == facts.indexed, facts.duplicates);
            &&& printed::<Verify, E>(s7, replies.skip(7)) == seq![
                LineModel::<E>::Output(
                    "  Duplicate UUIDs: "@ + signed_decimal(facts.duplicates as int) + " "@
                        + in_words(facts.duplicates == 0),
                ),
                LineModel::<E>::Output("\n=== 6. Recent message samples ==="@),
            ] + facts.samples.map_values(|s: Sample| sample_line::<E>(s)) + seq![
                LineModel::<E>::Output("\n=== 7. FTS5 search test ==="@),
                term_line("import"@, facts.imports),
                term_line("SQLite"@, facts.databases),
                term_line("cargo"@, facts.cargos),
            ] + (if facts.messages == facts.indexed && facts.duplicates == 0 {
                seq![LineModel::<E>::Output("\nAll checks passed."@)]
            } else {
                seq![]
            })
            &&& asked::<Verify, E>(s7, replies.skip(7)) == seq![
                rows_asked(
                    "SELECT m.role, substr(m.content, 1, 120), m.timestamp
     FROM messages m JOIN sessions s ON s.session_id = m.session_id
     ORDER BY m.timestamp DESC LIMIT 10"@,
                    seq![Column::Text, Column::Text, Column::OptionalText],
                ),
                matches_asked("import"@),
                matches_asked("SQLite"@),
                matches_asked("cargo"@),
            ]
        }),
{
    assert(forall|i: int| 0 <= i < 11 ==> (#[trigger] replies[i]).failure is None);
    lemma_sample_lines::<E>(facts.samples);
    let s7 = show_samples::<E>(facts.messages == facts.indexed, facts.duplicates);
    let s8 = <Verify as Task<E>>::after(s7.next->Ask_0, replies[7]);
    let s9 = <Verify as Task<E>>::after(s8.next->Ask_0, replies[8]);
    let s10 = <Verify as Task<E>>::after(s9.next->Ask_0, replies[9]);
    let s11 = <Verify as Task<E>>::after(s10.next->Ask_0, replies[10]);
    lemma_run_at::<Verify, E>(s7, replies, 7);
    lemma_run_at::<Verify, E>(s8, replies, 8);
    lemma_run_at::<Verify, E>(s9, replies, 9);
    lemma_run_at::<Verify, E>(s10, replies, 10);
    let samples = facts.samples.map_values(|s: Sample| sample_line::<E>(s));
    assert(s8.lines =~= samples + seq![LineModel::<E>::Output("\n=== 7. FTS5 search test ==="@)]);
    assert(s9.lines =~= seq![term_line::<E>("import"@, facts.imports)]);
    assert(s10.lines =~= seq![term_line::<E>("SQLite"@, facts.databases)]);
}

/// A check whose requests are answered asks for these numbers and rows, in this order, and
/// prints this report on them, whatever they are.
pub proof fn law_report<E>(replies: Seq<ReplyModel<E>>, facts: Facts)
    requires
        tell(replies, facts),
    ensures
        printed::<Verify, E>(count_by_role::<E>(), replies) == report_on::<E>(facts),
        asked::<Verify, E>(count_by_role::<E>(), replies) == seq![
            rows_asked(
                "SELECT role, COUNT(*) FROM messages GROUP BY role"@,
                seq![Column::Text, Column::Integer],
            ),
            number_asked("SELECT COUNT(*) FROM sessions"@, seq![]),
            number_asked("SELECT COUNT(DISTINCT project) FROM sessions"@, seq![]),
            rows_asked(
                "SELECT s.project, COUNT(*) as cnt FROM messages m
     JOIN sessions s ON s.session_id = m.session_id
     GROUP BY s.project ORDER BY cnt DESC LIMIT 5"@,
                seq![Column::Text, Column::Integer],
            ),
            number_asked("SELECT COUNT(*) FROM messages"@, seq![]),
            number_asked("SELECT COUNT(*) FROM messages_fts"@, seq![]),
            number_asked(
                "SELECT COUNT(*) FROM (SELECT uuid, COUNT(*) as cnt FROM messages WHERE uuid IS NOT NULL GROUP BY uuid HAVING cnt > 1)"@,
                seq![],
            ),
            rows_asked(
                "SELECT m.role, substr(m.content, 1, 120), m.timestamp
     FROM messages m JOIN sessions s ON s.session_id = m.session_id
     ORDER BY m.timestamp DESC LIMIT 10"@,
                seq![Column::Text, Column::Text, Column::OptionalText],
            ),
            matches_asked("import"@),
            matches_asked("SQLite"@),
            matches_asked("cargo"@),
        ],
{
    lemma_first_part(replies, facts);
    lemma_second_part(replies, facts);
    lemma_third_part(replies, facts);
    assert(printed::<Verify, E>(count_by_role::<E>(), replies) =~= report_on::<E>(facts));
}

} // verus!
