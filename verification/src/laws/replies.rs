//! How rows are read: values by their columns, and the errors of rows that do not have them.
use vstd::prelude::*;
use crate::error::ErrorModel;
use crate::messages::{message_in, messages_in, FetchMessages, SearchResultModel};
use crate::report::{
    law_every_row_is_reported, lemma_lines_stop, line_for, Section, Verify, VerifyModel,
};
use crate::sessions::{
    first_meaningful, meaningful, preview_of, summaries_in, summary_in, texts_in, ListModel,
    ListSessions, NthRecentSessionId, ResolveSessionId, SummaryModel,
};
use crate::store::{InsertMessage, Stats, UpsertSession};
use crate::tables::{fits, message_row, nullable};
use crate::task::{
    first_integer, first_row, integer_at, optional_text_at, optional_value, succeeded, text_at,
    Column, NextModel, ReplyModel, StepModel, Task, ValueModel,
};
use crate::vault::{OpenModel, OpenVault, VaultModel};

verus! {

/// Whether a row has the columns.
pub open spec fn has_columns(row: Seq<ValueModel>, columns: Seq<Column>) -> bool {
    forall|j: int| 0 <= j < columns.len() ==> j < row.len() && fits(#[trigger] row[j], columns[j])
}

/// The columns of a message.
pub open spec fn message_shape() -> Seq<Column> {
    seq![Column::Text, Column::Text, Column::Text, Column::Text, Column::OptionalText]
}

/// The columns of a session.
pub open spec fn session_shape() -> Seq<Column> {
    seq![Column::Text, Column::Text, Column::OptionalText, Column::Integer]
}

/// A value is read from its column as it is: a text as that text, an integer as that
/// integer, and a null only where there may be one.
pub proof fn law_values_are_read(row: Seq<ValueModel>, i: int, text: Seq<char>, n: i64)
    ensures
        text_at(row, i) == Some(text) <==> 0 <= i < row.len() && row[i] == ValueModel::Text(text),
        optional_text_at(row, i) == Some(Some(text)) <==> 0 <= i < row.len() && row[i]
            == ValueModel::Text(text),
        optional_text_at(row, i) == Some(None::<Seq<char>>) <==> 0 <= i < row.len() && row[i]
            == ValueModel::Null,
        integer_at(row, i) == Some(n) <==> 0 <= i < row.len() && row[i] == ValueModel::Integer(n),
        optional_value(Some(text)) == ValueModel::Text(text),
        optional_value(None) == ValueModel::Null,
{
}

/// The first row of a reply is its first row, whatever follows; where there is none, the
/// failure is the error, and without a failure the lack of rows is.
pub proof fn law_first_row<E>(reply: ReplyModel<E>)
    ensures
        reply.rows.len() > 0 ==> first_row(reply) == Ok::<Seq<ValueModel>, ErrorModel<E>>(
            reply.rows[0],
        ),
        reply.rows.len() == 0 && reply.failure is None ==> first_row(reply) == Err::<
            Seq<ValueModel>,
            ErrorModel<E>,
        >(ErrorModel::NoRows),
        reply.rows.len() == 0 && reply.failure is Some ==> first_row(reply) == Err::<
            Seq<ValueModel>,
            ErrorModel<E>,
        >(ErrorModel::Database { cause: reply.failure->0 }),
        reply.rows.len() == 0 ==> first_integer(reply) == Err::<i64, ErrorModel<E>>(
            first_row(reply)->Err_0,
        ),
        reply.rows.len() > 0 && reply.rows[0].len() > 0 && reply.rows[0][0] is Integer
            ==> first_integer(reply) == Ok::<i64, ErrorModel<E>>(reply.rows[0][0]->Integer_0),
        reply.rows.len() > 0 && !(reply.rows[0].len() > 0 && reply.rows[0][0] is Integer)
            ==> first_integer(reply) == Err::<i64, ErrorModel<E>>(ErrorModel::MalformedRow),
{
}

/// A statement gives the count of its reply where it did not fail.
pub proof fn law_counts_are_read<E>(reply: ReplyModel<E>)
    ensures
        reply.failure is None ==> succeeded(reply) == Ok::<u64, ErrorModel<E>>(reply.count),
        reply.failure is Some ==> succeeded(reply) == Err::<u64, ErrorModel<E>>(
            ErrorModel::Database { cause: reply.failure->0 },
        ),
        reply.failure is None ==> <UpsertSession as Task<E>>::after((), reply).next == NextModel::<
            (),
            (),
            E,
        >::Done(()),
        reply.failure is None ==> <InsertMessage as Task<E>>::after((), reply).next == NextModel::<
            (),
            bool,
            E,
        >::Done(reply.count > 0),
{
}

/// Messages are read from the rows of a reply, one from each and in their order. A row
/// without the columns of a message is an error, and otherwise a failure behind the rows is.
pub proof fn law_messages_are_read<E>(reply: ReplyModel<E>)
    ensures
        ({
            let good = forall|i: int|
                0 <= i < reply.rows.len() ==> has_columns(
                    #[trigger] reply.rows[i],
                    message_shape(),
                );
            let next = <FetchMessages as Task<E>>::after((), reply).next;
            &&& !good ==> next == NextModel::<(), Seq<SearchResultModel>, E>::Failed(
                ErrorModel::MalformedRow,
            )
            &&& good && reply.failure is Some ==> next == NextModel::<
                (),
                Seq<SearchResultModel>,
                E,
            >::Failed(ErrorModel::Database { cause: reply.failure->0 })
            &&& good && reply.failure is None ==> {
                &&& next is Done
                &&& next->Done_0.len() == reply.rows.len()
                &&& forall|i: int|
                    0 <= i < reply.rows.len() ==> message_row(#[trigger] next->Done_0[i])
                        == reply.rows[i].take(5)
            }
        }),
{
    let good = forall|i: int|
        0 <= i < reply.rows.len() ==> has_columns(#[trigger] reply.rows[i], message_shape());
    assert forall|i: int| 0 <= i < reply.rows.len() implies (has_columns(
        #[trigger] reply.rows[i],
        message_shape(),
    ) <==> message_in(reply.rows[i]) is Some) by {
        lemma_message_columns(reply.rows[i]);
    }
    if !good {
        let i = choose|i: int|
            0 <= i < reply.rows.len() && !has_columns(#[trigger] reply.rows[i], message_shape());
        assert(message_in(reply.rows[i]) is None);
    } else if reply.failure is None {
        let found = messages_in(reply)->Ok_0;
        assert forall|i: int| 0 <= i < reply.rows.len() implies message_row(#[trigger] found[i])
            == reply.rows[i].take(5) by {
            assert(has_columns(reply.rows[i], message_shape()));
            lemma_message_columns(reply.rows[i]);
        }
    }
}

/// A row is a message exactly where it has the columns of one, and then of these values.
proof fn lemma_message_columns(row: Seq<ValueModel>)
    ensures
        has_columns(row, message_shape()) <==> message_in(row) is Some,
        has_columns(row, message_shape()) ==> message_row(
            message_in(row)->0,
        ) == row.take(5),
{
    let columns = message_shape();
    if has_columns(row, columns) {
        assert(0 < row.len() && fits(row[0], columns[0]));
        assert(1 < row.len() && fits(row[1], columns[1]));
        assert(2 < row.len() && fits(row[2], columns[2]));
        assert(3 < row.len() && fits(row[3], columns[3]));
        assert(4 < row.len() && fits(row[4], columns[4]));
        assert(message_row(message_in(row)->0) =~= row.take(5));
    }
}

/// Sessions are read from the rows of a reply, one from each, in their order and without a
/// preview. A row without the columns of a session is an error, and otherwise a failure behind
/// the rows is.
pub proof fn law_sessions_are_read<E>(reply: ReplyModel<E>)
    ensures
        ({
            let good = forall|i: int|
                0 <= i < reply.rows.len() ==> has_columns(
                    #[trigger] reply.rows[i],
                    session_shape(),
                );
            &&& !good ==> summaries_in(reply) == Err::<Seq<SummaryModel>, ErrorModel<E>>(
                ErrorModel::MalformedRow,
            )
            &&& good && reply.failure is Some ==> summaries_in(reply) == Err::<
                Seq<SummaryModel>,
                ErrorModel<E>,
            >(ErrorModel::Database { cause: reply.failure->0 })
            &&& good && reply.failure is None ==> {
                &&& summaries_in(reply) is Ok
                &&& summaries_in(reply)->Ok_0.len() == reply.rows.len()
                &&& forall|i: int|
                    0 <= i < reply.rows.len() ==> session_values_of(
                        #[trigger] summaries_in(reply)->Ok_0[i],
                    ) == reply.rows[i].take(4) && summaries_in(
                        reply,
                    )->Ok_0[i].first_user_message is None
            }
        }),
{
    let good = forall|i: int|
        0 <= i < reply.rows.len() ==> has_columns(#[trigger] reply.rows[i], session_shape());
    assert forall|i: int| 0 <= i < reply.rows.len() implies (has_columns(
        #[trigger] reply.rows[i],
        session_shape(),
    ) <==> summary_in(reply.rows[i]) is Some) by {
        lemma_session_columns(reply.rows[i]);
    }
    if !good {
        let i = choose|i: int|
            0 <= i < reply.rows.len() && !has_columns(#[trigger] reply.rows[i], session_shape());
        assert(summary_in(reply.rows[i]) is None);
    } else if reply.failure is None {
        let found = summaries_in(reply)->Ok_0;
        assert forall|i: int| 0 <= i < reply.rows.len() implies session_values_of(
            #[trigger] found[i],
        ) == reply.rows[i].take(4) && found[i].first_user_message is None by {
            assert(has_columns(reply.rows[i], session_shape()));
            lemma_session_columns(reply.rows[i]);
        }
    }
}

/// The values of a session in a listing.
pub open spec fn session_values_of(session: SummaryModel) -> Seq<ValueModel> {
    seq![
        ValueModel::Text(session.session_id),
        ValueModel::Text(session.project),
        nullable(session.started_at),
        ValueModel::Integer(session.message_count),
    ]
}

/// A row is a session exactly where it has the columns of one, and then of these values.
proof fn lemma_session_columns(row: Seq<ValueModel>)
    ensures
        has_columns(row, session_shape()) <==> summary_in(row) is Some,
        has_columns(row, session_shape()) ==> session_values_of(
            summary_in(row)->0,
        ) == row.take(4) && summary_in(row)->0.first_user_message is None,
{
    let columns = session_shape();
    if has_columns(row, columns) {
        assert(0 < row.len() && fits(row[0], columns[0]));
        assert(1 < row.len() && fits(row[1], columns[1]));
        assert(2 < row.len() && fits(row[2], columns[2]));
        assert(3 < row.len() && fits(row[3], columns[3]));
        assert(session_values_of(summary_in(row)->0) =~= row.take(4));
    }
}

/// Texts are read from the first column of the rows, one from each and in their order. A row
/// without a text is an error, and otherwise a failure behind the rows is.
pub proof fn law_texts_are_read<E>(reply: ReplyModel<E>)
    ensures
        ({
            let good = forall|i: int|
                0 <= i < reply.rows.len() ==> (#[trigger] reply.rows[i]).len() > 0
                    && reply.rows[i][0] is Text;
            &&& !good ==> texts_in(reply) == Err::<Seq<Seq<char>>, ErrorModel<E>>(
                ErrorModel::MalformedRow,
            )
            &&& good && reply.failure is Some ==> texts_in(reply) == Err::<
                Seq<Seq<char>>,
                ErrorModel<E>,
            >(ErrorModel::Database { cause: reply.failure->0 })
            &&& good && reply.failure is None ==> texts_in(reply) == Ok::<
                Seq<Seq<char>>,
                ErrorModel<E>,
            >(Seq::new(reply.rows.len(), |i: int| reply.rows[i][0]->Text_0))
        }),
{
    let good = forall|i: int|
        0 <= i < reply.rows.len() ==> (#[trigger] reply.rows[i]).len() > 0
            && reply.rows[i][0] is Text;
    if !good {
        let i = choose|i: int|
            0 <= i < reply.rows.len() && !((#[trigger] reply.rows[i]).len() > 0
                && reply.rows[i][0] is Text);
        assert(text_at(reply.rows[i], 0) is None);
    } else {
        assert forall|i: int| 0 <= i < reply.rows.len() implies text_at(
            #[trigger] reply.rows[i],
            0,
        ) is Some by {}
        if reply.failure is None {
            assert(texts_in(reply)->Ok_0 =~= Seq::new(
                reply.rows.len(),
                |i: int| reply.rows[i][0]->Text_0,
            ));
        }
    }
}

/// A prefix or a position whose reply is not what was asked for is an error.
pub proof fn law_bad_lookups<E>(prefix: Seq<char>, n: usize, reply: ReplyModel<E>)
    ensures
        texts_in(reply) matches Err(error) ==> <ResolveSessionId as Task<E>>::after(
            prefix,
            reply,
        ).next == NextModel::<Seq<char>, Seq<char>, E>::Failed(error),
        reply.rows.len() > 0 && reply.rows[0].len() > 0 && reply.rows[0][0] is Text
            ==> <NthRecentSessionId as Task<E>>::after(n, reply).next == NextModel::<
            usize,
            Seq<char>,
            E,
        >::Done(reply.rows[0][0]->Text_0),
        reply.rows.len() > 0 && !(reply.rows[0].len() > 0 && reply.rows[0][0] is Text)
            ==> <NthRecentSessionId as Task<E>>::after(n, reply).next == NextModel::<
            usize,
            Seq<char>,
            E,
        >::Failed(ErrorModel::MalformedRow),
        reply.rows.len() == 0 && reply.failure is None ==> <NthRecentSessionId as Task<E>>::after(
            n,
            reply,
        ).next == NextModel::<usize, Seq<char>, E>::Failed(
            ErrorModel::NoSessionAt { position: (n + 1) as nat },
        ),
{
}

/// An operation that wants a number, and gets a reply without one, ends with what is wrong
/// with the reply, and prints nothing.
pub proof fn law_bad_numbers<E>(
    reply: ReplyModel<E>,
    sessions: Option<i64>,
    check: VerifyModel,
    synced: bool,
)
    requires
        first_integer(reply) is Err,
    ensures
        ({
            let error = first_integer(reply)->Err_0;
            &&& <Stats as Task<E>>::after(sessions, reply).next == NextModel::<
                Option<i64>,
                (i64, i64),
                E,
            >::Failed(error)
            &&& !(check is Roles) && !(check is TopProjects) && !(check is Samples)
                ==> <Verify as Task<E>>::after(check, reply) == (StepModel::<VerifyModel, (), E> {
                lines: seq![],
                next: NextModel::Failed(error),
            })
            &&& <OpenVault as Task<E>>::after(
                OpenModel::LookingForIndex { synced },
                reply,
            ).next == NextModel::<OpenModel, VaultModel, E>::Failed(error)
        }),
{
}

/// An opening that wants to know the schema, and gets a reply without it, ends with what is
/// wrong with the reply.
pub proof fn law_bad_schema<E>(reply: ReplyModel<E>, synced: bool)
    ensures
        ({
            let schema = <OpenVault as Task<E>>::after(
                OpenModel::CheckingSchema { synced },
                reply,
            ).next;
            let index = <OpenVault as Task<E>>::after(
                OpenModel::ReadingIndex { synced },
                reply,
            ).next;
            let none = NextModel::<OpenModel, VaultModel, E>::Failed(ErrorModel::NoRows);
            let bad = NextModel::<OpenModel, VaultModel, E>::Failed(ErrorModel::MalformedRow);
            &&& reply.rows.len() == 0 && reply.failure is None ==> schema == none && index == none
            &&& reply.rows.len() > 0 ==> (schema == bad <==> !has_columns(
                reply.rows[0],
                seq![Column::Integer, Column::OptionalText],
            ))
            &&& reply.rows.len() > 0 ==> (index == bad <==> !has_columns(
                reply.rows[0],
                seq![Column::Text],
            ))
        }),
{
    let two = seq![Column::Integer, Column::OptionalText];
    let one = seq![Column::Text];
    if reply.rows.len() > 0 {
        let row = reply.rows[0];
        if has_columns(row, two) {
            assert(0 < row.len() && fits(row[0], two[0]));
            assert(1 < row.len() && fits(row[1], two[1]));
        }
        if has_columns(row, one) {
            assert(0 < row.len() && fits(row[0], one[0]));
        }
    }
}

/// A listing ends with what is wrong with a reply, wherever it has come.
pub proof fn law_bad_listing<E>(reply: ReplyModel<E>, state: ListModel)
    ensures
        ({
            let next = <ListSessions as Task<E>>::after(state, reply).next;
            &&& state is Sessions && summaries_in(reply) is Err ==> next == NextModel::<
                ListModel,
                Seq<SummaryModel>,
                E,
            >::Failed(summaries_in(reply)->Err_0)
            &&& !(state is Sessions) && texts_in(reply) is Err ==> next == NextModel::<
                ListModel,
                Seq<SummaryModel>,
                E,
            >::Failed(texts_in(reply)->Err_0)
        }),
{
}

/// The columns of a part of the report.
pub open spec fn section_shape(section: Section) -> Seq<Column> {
    match section {
        Section::Samples => seq![Column::Text, Column::Text, Column::OptionalText],
        _ => seq![Column::Text, Column::Integer],
    }
}

/// A row of a part of the report has a line exactly where it has the columns.
proof fn lemma_section_columns(section: Section, row: Seq<ValueModel>)
    ensures
        has_columns(row, section_shape(section)) <==> line_for(section, row) is Some,
{
    let columns = section_shape(section);
    if has_columns(row, columns) {
        assert(0 < row.len() && fits(row[0], columns[0]));
        assert(1 < row.len() && fits(row[1], columns[1]));
        if section is Samples {
            assert(2 < row.len() && fits(row[2], columns[2]));
        }
    }
}

/// Whether a check waits for the rows of a part of the report.
pub open spec fn waits_for(check: VerifyModel, section: Section) -> bool {
    match section {
        Section::Roles => check is Roles,
        Section::TopProjects => check is TopProjects,
        Section::Samples => check is Samples,
    }
}

/// A check reports the rows of a part in front of the first one without the columns, if there
/// is one, and then ends with that error. Otherwise it reports all rows, and ends with the
/// failure behind them, if there is one.
pub proof fn law_broken_report<E>(
    check: VerifyModel,
    section: Section,
    reply: ReplyModel<E>,
    k: int,
)
    requires
        waits_for(check, section),
        0 <= k <= reply.rows.len(),
        forall|i: int|
            0 <= i < k ==> has_columns(#[trigger] reply.rows[i], section_shape(section)),
    ensures
        ({
            let step = <Verify as Task<E>>::after(check, reply);
            &&& k < reply.rows.len() && !has_columns(reply.rows[k], section_shape(section)) ==> {
                &&& step.lines.len() == k
                &&& step.next == NextModel::<VerifyModel, (), E>::Failed(ErrorModel::MalformedRow)
            }
            &&& k == reply.rows.len() && reply.failure is Some ==> {
                &&& step.lines.len() == k
                &&& step.next == NextModel::<VerifyModel, (), E>::Failed(
                    ErrorModel::Database { cause: reply.failure->0 },
                )
            }
            &&& k == reply.rows.len() && reply.failure is None ==> step.next is Ask
        }),
{
    let head = reply.rows.take(k);
    assert forall|i: int| 0 <= i < head.len() implies line_for(section, #[trigger] head[i])
        is Some by {
        assert(has_columns(reply.rows[i], section_shape(section)));
        lemma_section_columns(section, reply.rows[i]);
    }
    law_every_row_is_reported::<E>(section, head);
    if k < reply.rows.len() {
        lemma_section_columns(section, reply.rows[k]);
        if line_for(section, reply.rows[k]) is None {
            lemma_lines_stop::<E>(section, reply.rows, k);
        }
    } else {
        assert(head =~= reply.rows);
    }
}

/// Whether `i` is the first index of a suitable message.
pub open spec fn first_suitable(candidates: Seq<Seq<char>>, i: int) -> bool {
    &&& 0 <= i < candidates.len()
    &&& meaningful(candidates[i])
    &&& forall|j: int| 0 <= j < i ==> !meaningful(#[trigger] candidates[j])
}

/// Whether no message is suitable.
pub open spec fn none_suitable(candidates: Seq<Seq<char>>) -> bool {
    forall|j: int| 0 <= j < candidates.len() ==> !meaningful(#[trigger] candidates[j])
}

/// The first suitable one of the candidates is picked, and none where none is.
proof fn lemma_first_suitable(candidates: Seq<Seq<char>>, i: int)
    ensures
        first_suitable(candidates, i) ==> first_meaningful(candidates) == Some(candidates[i]),
        none_suitable(candidates) ==> first_meaningful(candidates) is None,
    decreases candidates.len(),
{
    if candidates.len() > 0 && !meaningful(candidates.first()) {
        let rest = candidates.drop_first();
        lemma_first_suitable(rest, i - 1);
        if first_suitable(candidates, i) {
            assert(i > 0);
            assert forall|j: int| 0 <= j < i - 1 implies !meaningful(#[trigger] rest[j]) by {
                assert(!meaningful(candidates[j + 1]));
            }
            assert(first_suitable(rest, i - 1));
        }
        if none_suitable(candidates) {
            assert forall|j: int| 0 <= j < rest.len() implies !meaningful(#[trigger] rest[j]) by {
                assert(!meaningful(candidates[j + 1]));
            }
        }
    } else if candidates.len() > 0 {
        assert(candidates[0] == candidates.first());
        if first_suitable(candidates, i) && i > 0 {
            assert(!meaningful(candidates[0]));
        }
    }
}

/// The preview of a session is the user's first suitable message; where the user has none,
/// the assistant's first suitable one; and where there is none either, nothing. It is shown as
/// it is.
pub proof fn law_preview(
    user: Seq<Seq<char>>,
    assistant: Seq<Seq<char>>,
    i: int,
)
    ensures
        first_suitable(user, i) ==> preview_of(user, assistant) == Some(user[i]),
        none_suitable(user) && first_suitable(assistant, i) ==> preview_of(user, assistant) == Some(
            assistant[i],
        ),
        none_suitable(user) && none_suitable(assistant) ==> preview_of(user, assistant) is None,
{
    lemma_first_suitable(user, i);
    lemma_first_suitable(assistant, i);
}

} // verus!
