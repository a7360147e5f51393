//! Counting and checking: what the numbers and the verdict say of the tables.
use vstd::prelude::*;
use crate::error::ErrorModel;
use crate::laws::{answered, lemma_ends_ask, lemma_rest_is_answered};
use crate::report::{
    count_by_role, fetch_matches, fetch_rows, law_every_row_is_reported, line_for, lines_for,
    search_term, Section, Verify, VerifyModel, COUNT_BY_ROLE, COUNT_DUPLICATES, COUNT_INDEXED,
    COUNT_PROJECTS, SELECT_SAMPLES, SELECT_TOP_PROJECTS,
};
use crate::store::{counting, fetch_count, Stats, COUNT_MESSAGES, COUNT_SESSIONS};
use crate::tables::{
    all_read_whole, answers, distinct_uuids, ends, fits, read_whole, well_typed, Engine, Tables,
};
use crate::task::{
    first_integer, first_row, is_query, Column, NextModel, ReplyModel, RequestModel, StepModel,
    Task,
};

verus! {

/// The two counts are the numbers of stored sessions and messages, and counting changes
/// nothing.
pub proof fn law_counts_are_those_of_the_tables<E>(
    engine: Engine,
    tables: Tables,
    replies: Seq<ReplyModel<E>>,
    sessions: i64,
    messages: i64,
    new_tables: Tables,
)
    requires
        tables.sessions.len() <= i64::MAX,
        tables.messages.len() <= i64::MAX,
        ends::<Stats, E>(
            engine,
            tables,
            counting::<E>(),
            replies,
            Ok((sessions, messages)),
            new_tables,
        ),
    ensures
        sessions == tables.sessions.len(),
        messages == tables.messages.len(),
        new_tables == tables,
{
    let start = counting::<E>();
    let t1 = lemma_ends_ask::<Stats, E>(
        engine,
        tables,
        start,
        replies,
        Ok((sessions, messages)),
        new_tables,
    );
    let rest = replies.drop_first();
    let second = <Stats as Task<E>>::after(None, replies.first());
    assert(first_integer(replies.first()) is Ok);
    assert(replies.first().failure is None);
    assert(t1 == tables);
    let t2 = lemma_ends_ask::<Stats, E>(
        engine,
        tables,
        second,
        rest,
        Ok((sessions, messages)),
        new_tables,
    );
    assert(first_integer(rest.first()) is Ok);
    assert(rest.first().failure is None);
    assert(t2 == tables);
}

/// Whether a check asks for `request` in a state.
spec fn check_asks(state: VerifyModel, request: RequestModel) -> bool {
    &&& is_query(request)
    &&& state is Roles ==> request == fetch_rows(
        COUNT_BY_ROLE@,
        seq![Column::Text, Column::Integer],
    )
    &&& state is Sessions ==> request == fetch_count(COUNT_SESSIONS@)
    &&& state is Projects ==> request == fetch_count(COUNT_PROJECTS@)
    &&& state is TopProjects ==> request == fetch_rows(
        SELECT_TOP_PROJECTS@,
        seq![Column::Text, Column::Integer],
    )
    &&& state is Samples ==> request == fetch_rows(
        SELECT_SAMPLES@,
        seq![Column::Text, Column::Text, Column::OptionalText],
    )
    &&& state is Matches ==> request == fetch_matches(search_term(state->Matches_term))
    &&& state is Messages ==> request == fetch_count(COUNT_MESSAGES@)
    &&& state is Indexed ==> request == fetch_count(COUNT_INDEXED@)
    &&& state is Duplicates ==> request == fetch_count(COUNT_DUPLICATES@)
}

/// What a check knows of the tables in a state.
spec fn check_knows(state: VerifyModel, tables: Tables) -> bool {
    match state {
        VerifyModel::Indexed { messages } => messages == tables.messages.len() as i64,
        VerifyModel::Duplicates { index_ok } => index_ok,
        VerifyModel::Samples { ok } => ok == distinct_uuids(tables.messages),
        VerifyModel::Matches { ok, .. } => ok == distinct_uuids(tables.messages),
        _ => true,
    }
}

/// Whether an operation failed because a request did, or a reply was not what was asked for.
pub open spec fn was_answered_badly<T, E>(result: Result<T, ErrorModel<E>>) -> bool {
    result matches Err(error) && (error is Database || error is NoRows || error is MalformedRow)
}

/// The verdict on the tables: they are consistent exactly where no two messages have the
/// same identifier.
pub open spec fn verdict_on<E>(tables: Tables) -> Result<(), ErrorModel<E>> {
    if distinct_uuids(tables.messages) {
        Ok(())
    } else {
        Err(ErrorModel::VerificationFailed)
    }
}

/// A row with the columns that a part of the report asks for has a line.
proof fn lemma_typed_rows<E>(section: Section, request: RequestModel, reply: ReplyModel<E>)
    requires
        is_query(request),
        well_typed(request, reply),
        section is Roles || section is TopProjects ==> request->FetchAll_columns == seq![
            Column::Text,
            Column::Integer,
        ],
        section is Samples ==> request->FetchAll_columns == seq![
            Column::Text,
            Column::Text,
            Column::OptionalText,
        ],
        request is FetchAll,
    ensures
        lines_for::<E>(section, reply.rows).len() == reply.rows.len(),
{
    assert forall|i: int| 0 <= i < reply.rows.len() implies line_for(
        section,
        #[trigger] reply.rows[i],
    ) is Some by {
        let row = reply.rows[i];
        let columns = request->FetchAll_columns;
        assert(row.len() == columns.len());
        assert(fits(row[0], columns[0]));
        assert(fits(row[1], columns[1]));
        if section is Samples {
            assert(fits(row[2], columns[2]));
        }
    }
    law_every_row_is_reported::<E>(section, reply.rows);
}

/// A request of a check that is answered does not end it, but for its verdict.
proof fn lemma_check_goes_on<E>(
    engine: Engine,
    tables: Tables,
    state: VerifyModel,
    request: RequestModel,
    reply: ReplyModel<E>,
    new_tables: Tables,
)
    requires
        tables.index is Some,
        tables.index->0.external,
        check_asks(state, request),
        answers(engine, tables, request, reply, new_tables),
        read_whole(request, reply),
        reply.failure is None,
    ensures
        !was_answered_badly(
            match <Verify as Task<E>>::after(state, reply).next {
                NextModel::Failed(error) => Err::<(), ErrorModel<E>>(error),
                _ => Ok::<(), ErrorModel<E>>(()),
            },
        ),
{
    match state {
        VerifyModel::Roles => lemma_typed_rows(Section::Roles, request, reply),
        VerifyModel::TopProjects => lemma_typed_rows(Section::TopProjects, request, reply),
        VerifyModel::Samples { .. } => lemma_typed_rows(Section::Samples, request, reply),
        _ => {
            assert(reply.rows.len() > 0);
            assert(fits(reply.rows[0][0], Column::Integer));
            assert(first_integer(reply) is Ok);
        },
    }
}

/// A check comes to its verdict from any state on.
proof fn lemma_verdict<E>(
    engine: Engine,
    tables: Tables,
    step: StepModel<VerifyModel, (), E>,
    replies: Seq<ReplyModel<E>>,
    result: Result<(), ErrorModel<E>>,
    new_tables: Tables,
)
    requires
        tables.index is Some,
        tables.index->0.external,
        step.next is Ask,
        check_asks(step.next->Ask_0, step.next->Ask_1),
        check_knows(step.next->Ask_0, tables),
        ends::<Verify, E>(engine, tables, step, replies, result, new_tables),
    ensures
        new_tables == tables,
        was_answered_badly(result) || result == verdict_on::<E>(tables),
        answered(replies) && all_read_whole::<Verify, E>(step, replies) ==> result == verdict_on::<E>(
            tables,
        ),
    decreases replies.len(),
{
    let state = step.next->Ask_0;
    let reply = replies.first();
    let rest = replies.drop_first();
    let between = lemma_ends_ask::<Verify, E>(engine, tables, step, replies, result, new_tables);
    if answered(replies) && all_read_whole::<Verify, E>(step, replies) {
        lemma_rest_is_answered(replies);
        lemma_check_goes_on(engine, tables, state, step.next->Ask_1, reply, between);
    }
    assert(between == tables);
    let next = <Verify as Task<E>>::after(state, reply);
    if reply.failure is None && (state is Messages || state is Indexed) {
        assert(first_row(reply) is Ok);
        assert(first_integer(reply) == Ok::<i64, ErrorModel<E>>(tables.messages.len() as i64));
    }
    if next.next is Ask {
        assert(check_asks(next.next->Ask_0, next.next->Ask_1));
        assert(check_knows(next.next->Ask_0, tables));
        lemma_verdict(engine, tables, next, rest, result, new_tables);
    }
}

/// A check of an archive whose full-text index lists the texts of the messages passes exactly
/// where no two messages have the same identifier, as long as its requests are answered, and
/// comes to that verdict wherever they are, with the columns that it asks for. It changes
/// nothing. Such an index lists as many texts as there are messages, whatever can be found by
/// it, so the two numbers that are compared are the same.
pub proof fn law_verdict_on_the_tables<E>(
    engine: Engine,
    tables: Tables,
    replies: Seq<ReplyModel<E>>,
    result: Result<(), ErrorModel<E>>,
    new_tables: Tables,
)
    requires
        tables.index is Some,
        tables.index->0.external,
        ends::<Verify, E>(engine, tables, count_by_role::<E>(), replies, result, new_tables),
    ensures
        new_tables == tables,
        was_answered_badly(result) || result == verdict_on::<E>(tables),
        answered(replies) && all_read_whole::<Verify, E>(count_by_role::<E>(), replies) ==> result
            == verdict_on::<E>(tables),
{
    lemma_verdict(engine, tables, count_by_role::<E>(), replies, result, new_tables);
}

} // verus!
