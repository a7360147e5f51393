//! Operations whose requests are answered succeed.
use vstd::prelude::*;
use crate::error::ErrorModel;
use crate::laws::{answered, lemma_ends_ask, lemma_message_rows, lemma_rest_is_answered};
use crate::messages::{
    message_in, messages_in, reading, searching, FetchMessages, SearchResultModel,
};
use crate::sessions::{
    listing, summaries_in, summary_in, texts_in, ListModel, ListSessions, SummaryModel,
};
use crate::store::{
    counting, deleting, storing_message, storing_session, DeleteSession, InsertMessage, Stats,
    UpsertSession,
};
use crate::tables::{all_read_whole, ends, fits, messages_read, well_typed, Engine, Tables};
use crate::task::{first_integer, text_at, Column, ReplyModel, RequestModel, StepModel, Task};

verus! {

/// A session is stored wherever the request is answered.
pub proof fn law_answered_storing_succeeds<E>(
    engine: Engine,
    old_tables: Tables,
    session_id: Seq<char>,
    project: Seq<char>,
    started_at: Option<Seq<char>>,
    replies: Seq<ReplyModel<E>>,
    result: Result<(), ErrorModel<E>>,
    new_tables: Tables,
)
    requires
        answered(replies),
        ends::<UpsertSession, E>(
            engine,
            old_tables,
            storing_session::<E>(session_id, project, started_at),
            replies,
            result,
            new_tables,
        ),
    ensures
        result is Ok,
{
    let tables = lemma_ends_ask::<UpsertSession, E>(
        engine,
        old_tables,
        storing_session::<E>(session_id, project, started_at),
        replies,
        result,
        new_tables,
    );
    lemma_rest_is_answered(replies);
}

/// A message is stored, or found to be stored already, wherever the request is answered.
pub proof fn law_answered_message_is_told<E>(
    engine: Engine,
    old_tables: Tables,
    session_id: Seq<char>,
    uuid: Option<Seq<char>>,
    role: Seq<char>,
    content: Seq<char>,
    timestamp: Option<Seq<char>>,
    replies: Seq<ReplyModel<E>>,
    result: Result<bool, ErrorModel<E>>,
    new_tables: Tables,
)
    requires
        answered(replies),
        ends::<InsertMessage, E>(
            engine,
            old_tables,
            storing_message::<E>(session_id, uuid, role, content, timestamp),
            replies,
            result,
            new_tables,
        ),
    ensures
        result is Ok,
{
    let tables = lemma_ends_ask::<InsertMessage, E>(
        engine,
        old_tables,
        storing_message::<E>(session_id, uuid, role, content, timestamp),
        replies,
        result,
        new_tables,
    );
    lemma_rest_is_answered(replies);
}

/// Messages are read from rows with the columns that were asked for.
proof fn lemma_typed_messages<E>(request: RequestModel, reply: ReplyModel<E>)
    requires
        request is FetchAll,
        request->FetchAll_columns == seq![
            Column::Text,
            Column::Text,
            Column::Text,
            Column::Text,
            Column::OptionalText,
        ],
        well_typed(request, reply),
        reply.failure is None,
    ensures
        messages_in(reply) is Ok,
{
    assert forall|i: int| 0 <= i < reply.rows.len() implies message_in(
        #[trigger] reply.rows[i],
    ) is Some by {
        let row = reply.rows[i];
        let columns = request->FetchAll_columns;
        assert(row.len() == columns.len());
        assert(fits(row[0], columns[0]));
        assert(fits(row[1], columns[1]));
        assert(fits(row[2], columns[2]));
        assert(fits(row[3], columns[3]));
        assert(fits(row[4], columns[4]));
    }
}

/// The messages of a session are read wherever the request is answered.
pub proof fn law_answered_reading_succeeds<E>(
    engine: Engine,
    old_tables: Tables,
    session_id: Seq<char>,
    replies: Seq<ReplyModel<E>>,
    result: Result<Seq<SearchResultModel>, ErrorModel<E>>,
    new_tables: Tables,
)
    requires
        answered(replies),
        ends::<FetchMessages, E>(
            engine,
            old_tables,
            reading::<E>(session_id),
            replies,
            result,
            new_tables,
        ),
    ensures
        result is Ok,
{
    let start = reading::<E>(session_id);
    let tables = lemma_ends_ask::<FetchMessages, E>(
        engine,
        old_tables,
        start,
        replies,
        result,
        new_tables,
    );
    lemma_rest_is_answered(replies);
    lemma_message_rows(replies.first(), messages_read(old_tables, session_id));
}

/// A search succeeds wherever its request is answered with the columns of messages.
pub proof fn law_answered_search_succeeds<E>(
    engine: Engine,
    old_tables: Tables,
    query: Seq<char>,
    limit: usize,
    project_name: Option<Seq<char>>,
    role: Option<Seq<char>>,
    since: Option<Seq<char>>,
    until: Option<Seq<char>>,
    replies: Seq<ReplyModel<E>>,
    result: Result<Seq<SearchResultModel>, ErrorModel<E>>,
    new_tables: Tables,
)
    requires
        answered(replies),
        all_read_whole::<FetchMessages, E>(
            searching::<E>(query, limit, project_name, role, since, until),
            replies,
        ),
        ends::<FetchMessages, E>(
            engine,
            old_tables,
            searching::<E>(query, limit, project_name, role, since, until),
            replies,
            result,
            new_tables,
        ),
    ensures
        result is Ok,
{
    let start = searching::<E>(query, limit, project_name, role, since, until);
    if start.next is Ask {
        let tables = lemma_ends_ask::<FetchMessages, E>(
            engine,
            old_tables,
            start,
            replies,
            result,
            new_tables,
        );
        lemma_rest_is_answered(replies);
        lemma_typed_messages(start.next->Ask_1, replies.first());
    }
}

/// Texts are read from rows of one text.
proof fn lemma_typed_texts<E>(request: RequestModel, reply: ReplyModel<E>)
    requires
        request is FetchAll,
        request->FetchAll_columns == seq![Column::Text],
        well_typed(request, reply),
        reply.failure is None,
    ensures
        texts_in(reply) is Ok,
{
    assert forall|i: int| 0 <= i < reply.rows.len() implies text_at(
        #[trigger] reply.rows[i],
        0,
    ) is Some by {
        assert(fits(reply.rows[i][0], request->FetchAll_columns[0]));
    }
}

/// Sessions are read from rows with the columns that were asked for.
proof fn lemma_typed_summaries<E>(request: RequestModel, reply: ReplyModel<E>)
    requires
        request is FetchAll,
        request->FetchAll_columns == seq![
            Column::Text,
            Column::Text,
            Column::OptionalText,
            Column::Integer,
        ],
        well_typed(request, reply),
        reply.failure is None,
    ensures
        summaries_in(reply) is Ok,
{
    assert forall|i: int| 0 <= i < reply.rows.len() implies summary_in(
        #[trigger] reply.rows[i],
    ) is Some by {
        let row = reply.rows[i];
        let columns = request->FetchAll_columns;
        assert(row.len() == columns.len());
        assert(fits(row[0], columns[0]));
        assert(fits(row[1], columns[1]));
        assert(fits(row[2], columns[2]));
        assert(fits(row[3], columns[3]));
    }
}

/// Whether the request of a listing has the columns that its state reads.
spec fn list_reads(state: ListModel, request: RequestModel) -> bool {
    &&& request is FetchAll
    &&& request->FetchAll_columns == if state is Sessions {
        seq![Column::Text, Column::Text, Column::OptionalText, Column::Integer]
    } else {
        seq![Column::Text]
    }
}

/// A listing succeeds from any state on.
proof fn lemma_answered_listing<E>(
    engine: Engine,
    old_tables: Tables,
    step: StepModel<ListModel, Seq<SummaryModel>, E>,
    replies: Seq<ReplyModel<E>>,
    result: Result<Seq<SummaryModel>, ErrorModel<E>>,
    new_tables: Tables,
)
    requires
        answered(replies),
        all_read_whole::<ListSessions, E>(step, replies),
        step.next is Ask,
        list_reads(step.next->Ask_0, step.next->Ask_1),
        ends::<ListSessions, E>(engine, old_tables, step, replies, result, new_tables),
    ensures
        result is Ok,
    decreases replies.len(),
{
    let tables = lemma_ends_ask::<ListSessions, E>(
        engine,
        old_tables,
        step,
        replies,
        result,
        new_tables,
    );
    let state = step.next->Ask_0;
    let reply = replies.first();
    lemma_rest_is_answered(replies);
    if state is Sessions {
        lemma_typed_summaries(step.next->Ask_1, reply);
    } else {
        lemma_typed_texts(step.next->Ask_1, reply);
    }
    let next = <ListSessions as Task<E>>::after(state, reply);
    if next.next is Ask {
        lemma_answered_listing(engine, tables, next, replies.drop_first(), result, new_tables);
    }
}

/// A listing succeeds wherever its requests are answered with the columns that it asks for.
pub proof fn law_answered_listing_succeeds<E>(
    engine: Engine,
    old_tables: Tables,
    limit: usize,
    project_name: Option<Seq<char>>,
    since: Option<Seq<char>>,
    until: Option<Seq<char>>,
    replies: Seq<ReplyModel<E>>,
    result: Result<Seq<SummaryModel>, ErrorModel<E>>,
    new_tables: Tables,
)
    requires
        answered(replies),
        all_read_whole::<ListSessions, E>(
            listing::<E>(limit, project_name, since, until),
            replies,
        ),
        ends::<ListSessions, E>(
            engine,
            old_tables,
            listing::<E>(limit, project_name, since, until),
            replies,
            result,
            new_tables,
        ),
    ensures
        result is Ok,
{
    lemma_answered_listing(
        engine,
        old_tables,
        listing::<E>(limit, project_name, since, until),
        replies,
        result,
        new_tables,
    );
}

/// A session is deleted wherever the requests are answered.
pub proof fn law_answered_deletion_succeeds<E>(
    engine: Engine,
    old_tables: Tables,
    session_id: Seq<char>,
    replies: Seq<ReplyModel<E>>,
    result: Result<u64, ErrorModel<E>>,
    new_tables: Tables,
)
    requires
        answered(replies),
        ends::<DeleteSession, E>(
            engine,
            old_tables,
            deleting::<E>(session_id),
            replies,
            result,
            new_tables,
        ),
    ensures
        result is Ok,
{
    let start = deleting::<E>(session_id);
    let tables = lemma_ends_ask::<DeleteSession, E>(
        engine,
        old_tables,
        start,
        replies,
        result,
        new_tables,
    );
    lemma_rest_is_answered(replies);
    let second = <DeleteSession as Task<E>>::after(start.next->Ask_0, replies.first());
    let last = lemma_ends_ask::<DeleteSession, E>(
        engine,
        tables,
        second,
        replies.drop_first(),
        result,
        new_tables,
    );
    lemma_rest_is_answered(replies.drop_first());
}

/// The sessions and the messages are counted wherever the requests are answered.
pub proof fn law_answered_counting_succeeds<E>(
    engine: Engine,
    old_tables: Tables,
    replies: Seq<ReplyModel<E>>,
    result: Result<(i64, i64), ErrorModel<E>>,
    new_tables: Tables,
)
    requires
        answered(replies),
        ends::<Stats, E>(engine, old_tables, counting::<E>(), replies, result, new_tables),
    ensures
        result is Ok,
{
    let start = counting::<E>();
    let tables = lemma_ends_ask::<Stats, E>(
        engine,
        old_tables,
        start,
        replies,
        result,
        new_tables,
    );
    lemma_rest_is_answered(replies);
    assert(replies.first().rows.len() == 1);
    assert(first_integer(replies.first()) is Ok);
    let second = <Stats as Task<E>>::after(start.next->Ask_0, replies.first());
    let last = lemma_ends_ask::<Stats, E>(
        engine,
        tables,
        second,
        replies.drop_first(),
        result,
        new_tables,
    );
    lemma_rest_is_answered(replies.drop_first());
    assert(replies.drop_first().first().rows.len() == 1);
    assert(first_integer(replies.drop_first().first()) is Ok);
}

} // verus!
