//! Storing and deleting, and what reads back of what was stored.
use vstd::prelude::*;
use crate::error::ErrorModel;
use crate::laws::{
    lemma_ends_ask, lemma_filter_all_or_none, lemma_filter_members, lemma_message_rows,
};
use crate::messages::{reading, FetchMessages, SearchResultModel};
use crate::store::{
    deleting, insert_request, storing_message, storing_session, DeleteModel, DeleteSession,
    InsertMessage, UpsertSession,
};
use crate::tables::{
    answers, attached, distinct_uuids, ends, messages_of, messages_read, result_of, same_rows,
    same_schema, taken, Engine, StoredMessage, Tables,
};
use crate::task::{ReplyModel, Task};

verus! {

/// A session that was stored has the given project and the given start, or else the one
/// that it had; it keeps the time at which it was stored first. Nothing else changes, and
/// every message goes on to have its session.
pub proof fn law_stored_session<E>(
    engine: Engine,
    old_tables: Tables,
    session_id: Seq<char>,
    project: Seq<char>,
    started_at: Option<Seq<char>>,
    replies: Seq<ReplyModel<E>>,
    new_tables: Tables,
)
    requires
        ends::<UpsertSession, E>(
            engine,
            old_tables,
            storing_session::<E>(session_id, project, started_at),
            replies,
            Ok(()),
            new_tables,
        ),
    ensures
        new_tables.sessions.contains_key(session_id),
        new_tables.sessions[session_id].project == project,
        new_tables.sessions[session_id].started_at == if started_at is Some {
            started_at
        } else if old_tables.sessions.contains_key(session_id) {
            old_tables.sessions[session_id].started_at
        } else {
            None
        },
        old_tables.sessions.contains_key(session_id)
            ==> new_tables.sessions[session_id].imported_at
            == old_tables.sessions[session_id].imported_at,
        new_tables.sessions.remove(session_id) == old_tables.sessions.remove(session_id),
        new_tables.messages == old_tables.messages,
        same_schema(old_tables, new_tables),
        attached(old_tables) ==> attached(new_tables),
{
    let start = storing_session::<E>(session_id, project, started_at);
    let tables = lemma_ends_ask::<UpsertSession, E>(
        engine,
        old_tables,
        start,
        replies,
        Ok(()),
        new_tables,
    );
    assert(new_tables == tables);
    assert(new_tables.sessions.remove(session_id) =~= old_tables.sessions.remove(session_id));
}

/// Storing a session a second time with the same values changes nothing.
pub proof fn law_storing_a_session_twice<E>(
    engine: Engine,
    old_tables: Tables,
    session_id: Seq<char>,
    project: Seq<char>,
    started_at: Option<Seq<char>>,
    first_replies: Seq<ReplyModel<E>>,
    tables: Tables,
    second_replies: Seq<ReplyModel<E>>,
    new_tables: Tables,
)
    requires
        ends::<UpsertSession, E>(
            engine,
            old_tables,
            storing_session::<E>(session_id, project, started_at),
            first_replies,
            Ok(()),
            tables,
        ),
        ends::<UpsertSession, E>(
            engine,
            tables,
            storing_session::<E>(session_id, project, started_at),
            second_replies,
            Ok(()),
            new_tables,
        ),
    ensures
        new_tables == tables,
{
    let start = storing_session::<E>(session_id, project, started_at);
    law_stored_session(
        engine,
        old_tables,
        session_id,
        project,
        started_at,
        first_replies,
        tables,
    );
    let last = lemma_ends_ask::<UpsertSession, E>(
        engine,
        tables,
        start,
        second_replies,
        Ok(()),
        new_tables,
    );
    assert(new_tables == last);
    assert(new_tables.sessions =~= tables.sessions);
}

/// A message is stored exactly where it has no identifier or a new one, and the result
/// says so. A message that is stored comes last; where it is not, nothing changes. So no
/// two messages ever have the same identifier, and where messages must have their sessions,
/// they do.
pub proof fn law_stored_message<E>(
    engine: Engine,
    old_tables: Tables,
    message: StoredMessage,
    replies: Seq<ReplyModel<E>>,
    stored: bool,
    new_tables: Tables,
)
    requires
        ends::<InsertMessage, E>(
            engine,
            old_tables,
            storing_message::<E>(
                message.session_id,
                message.uuid,
                message.role,
                message.content,
                message.timestamp,
            ),
            replies,
            Ok(stored),
            new_tables,
        ),
    ensures
        stored == !taken(old_tables.messages, message.uuid),
        stored ==> new_tables.messages == old_tables.messages.push(message),
        new_tables.sessions == old_tables.sessions,
        same_schema(old_tables, new_tables),
        old_tables.triggers ==> new_tables.index == old_tables.index,
        !stored ==> new_tables == old_tables,
        distinct_uuids(old_tables.messages) ==> distinct_uuids(new_tables.messages),
        engine.enforces && attached(old_tables) ==> attached(new_tables),
{
    let start = storing_message::<E>(
        message.session_id,
        message.uuid,
        message.role,
        message.content,
        message.timestamp,
    );
    let tables = lemma_ends_ask::<InsertMessage, E>(
        engine,
        old_tables,
        start,
        replies,
        Ok(stored),
        new_tables,
    );
    assert(new_tables == tables);
    assert(message == StoredMessage {
        session_id: message.session_id,
        uuid: message.uuid,
        role: message.role,
        content: message.content,
        timestamp: message.timestamp,
    });
    if engine.enforces && attached(old_tables) && stored {
        assert(old_tables.sessions.contains_key(message.session_id));
        assert forall|i: int|
            0 <= i < new_tables.messages.len() implies new_tables.sessions.contains_key(
            (#[trigger] new_tables.messages[i]).session_id,
        ) by {
            if i < old_tables.messages.len() {
                assert(new_tables.messages[i] == old_tables.messages[i]);
            }
        }
    }
    if stored && distinct_uuids(old_tables.messages) {
        let all = new_tables.messages;
        assert forall|i: int, j: int|
            0 <= i < j < all.len() && #[trigger] all[i].uuid is Some implies #[trigger] all[j].uuid
            != all[i].uuid by {
            assert(all[i] == old_tables.messages[i]);
            if j < old_tables.messages.len() {
                assert(all[j] == old_tables.messages[j]);
            } else if all[j].uuid == all[i].uuid {
                assert(old_tables.messages[i].uuid == message.uuid);
            }
        }
    }
}

/// Where messages must have their sessions, a message of a session that is not stored is
/// refused, unless its identifier is taken, and nothing changes.
pub proof fn law_messages_need_their_session<E>(
    engine: Engine,
    old_tables: Tables,
    message: StoredMessage,
    replies: Seq<ReplyModel<E>>,
    result: Result<bool, ErrorModel<E>>,
    new_tables: Tables,
)
    requires
        engine.enforces,
        !old_tables.sessions.contains_key(message.session_id),
        !taken(old_tables.messages, message.uuid),
        ends::<InsertMessage, E>(
            engine,
            old_tables,
            storing_message::<E>(
                message.session_id,
                message.uuid,
                message.role,
                message.content,
                message.timestamp,
            ),
            replies,
            result,
            new_tables,
        ),
    ensures
        result matches Err(ErrorModel::Database { .. }),
        new_tables == old_tables,
{
    let start = storing_message::<E>(
        message.session_id,
        message.uuid,
        message.role,
        message.content,
        message.timestamp,
    );
    let tables = lemma_ends_ask::<InsertMessage, E>(
        engine,
        old_tables,
        start,
        replies,
        result,
        new_tables,
    );
    assert(new_tables == tables);
}

/// Where every message has its session, a session that is not stored has no messages.
pub proof fn law_unknown_sessions_have_no_messages(tables: Tables, session_id: Seq<char>)
    requires
        attached(tables),
        !tables.sessions.contains_key(session_id),
    ensures
        messages_of(tables.messages, session_id).len() == 0,
{
    lemma_filter_all_or_none(
        tables.messages,
        |m: StoredMessage| m.session_id == session_id,
    );
}

/// The members of `messages` whose storing changed a row.
pub open spec fn stored_ones<E>(
    messages: Seq<StoredMessage>,
    replies: Seq<ReplyModel<E>>,
) -> Seq<StoredMessage>
    decreases messages.len(),
{
    if messages.len() == 0 {
        seq![]
    } else {
        let before = stored_ones(messages.drop_last(), replies);
        if replies[messages.len() - 1].count > 0 {
            before.push(messages.last())
        } else {
            before
        }
    }
}

/// Whether `messages` were stored one after the other, answered by `replies` without a
/// failure, with `states` in front of, between and behind them.
pub open spec fn stored_in_turn<E>(
    engine: Engine,
    messages: Seq<StoredMessage>,
    replies: Seq<ReplyModel<E>>,
    states: Seq<Tables>,
) -> bool {
    &&& replies.len() == messages.len()
    &&& states.len() == messages.len() + 1
    &&& forall|i: int|
        0 <= i < messages.len() ==> (#[trigger] replies[i]).failure is None && answers(
            engine,
            states[i],
            insert_request(
                messages[i].session_id,
                messages[i].uuid,
                messages[i].role,
                messages[i].content,
                messages[i].timestamp,
            ),
            replies[i],
            states[i + 1],
        )
}

/// Messages that are stored one after the other follow on those that were there.
proof fn lemma_stored_in_turn<E>(
    engine: Engine,
    messages: Seq<StoredMessage>,
    replies: Seq<ReplyModel<E>>,
    states: Seq<Tables>,
    n: nat,
)
    requires
        stored_in_turn(engine, messages, replies, states),
        n <= messages.len(),
    ensures
        states[n as int].messages == states[0].messages + stored_ones(
            messages.take(n as int),
            replies,
        ),
        states[n as int].sessions == states[0].sessions,
    decreases n,
{
    let head = messages.take(n as int);
    if n == 0 {
        assert(states[0].messages =~= states[0].messages + stored_ones(head, replies));
    } else {
        let i = n - 1;
        lemma_stored_in_turn(engine, messages, replies, states, i as nat);
        assert(head.drop_last() =~= messages.take(i));
        assert(head.last() == messages[i]);
        let m = messages[i];
        assert(replies[i].failure is None);
        let request = insert_request(m.session_id, m.uuid, m.role, m.content, m.timestamp);
        assert(answers(engine, states[i], request, replies[i], states[i + 1]));
        let copy = StoredMessage {
            session_id: m.session_id,
            uuid: m.uuid,
            role: m.role,
            content: m.content,
            timestamp: m.timestamp,
        };
        assert(m == copy);
        assert(states[n as int].messages =~= states[0].messages + stored_ones(head, replies));
    }
}

/// Reading the messages of a session gives those that are stored of it, in the order in
/// which they were stored, and changes nothing; of a session that is not stored, none.
pub proof fn law_session_messages<E>(
    engine: Engine,
    old_tables: Tables,
    session_id: Seq<char>,
    replies: Seq<ReplyModel<E>>,
    found: Seq<SearchResultModel>,
    new_tables: Tables,
)
    requires
        ends::<FetchMessages, E>(
            engine,
            old_tables,
            reading::<E>(session_id),
            replies,
            Ok(found),
            new_tables,
        ),
    ensures
        new_tables == old_tables,
        found == messages_read(old_tables, session_id),
{
    let tables = lemma_ends_ask::<FetchMessages, E>(
        engine,
        old_tables,
        reading::<E>(session_id),
        replies,
        Ok(found),
        new_tables,
    );
    assert(new_tables == tables);
    assert(replies.first().failure is None);
    lemma_message_rows(replies.first(), messages_read(old_tables, session_id));
}

/// A message that is stored reads back as it was given, whatever other messages are stored
/// in between: where a stored session has no messages at first, reading them gives exactly
/// those that were then stored of it, unaltered and in the order in which they were stored.
pub proof fn law_stored_messages_come_back<E>(
    engine: Engine,
    session_id: Seq<char>,
    messages: Seq<StoredMessage>,
    insert_replies: Seq<ReplyModel<E>>,
    states: Seq<Tables>,
    replies: Seq<ReplyModel<E>>,
    found: Seq<SearchResultModel>,
    new_tables: Tables,
)
    requires
        stored_in_turn(engine, messages, insert_replies, states),
        states[0].sessions.contains_key(session_id),
        messages_of(states[0].messages, session_id).len() == 0,
        ends::<FetchMessages, E>(
            engine,
            states.last(),
            reading::<E>(session_id),
            replies,
            Ok(found),
            new_tables,
        ),
    ensures
        found == messages_of(stored_ones(messages, insert_replies), session_id).map_values(
            |m: StoredMessage| result_of(states[0].sessions, m),
        ),
{
    law_session_messages(engine, states.last(), session_id, replies, found, new_tables);
    lemma_stored_in_turn(engine, messages, insert_replies, states, messages.len());
    assert(messages.take(messages.len() as int) =~= messages);
    let fresh = stored_ones(messages, insert_replies);
    Seq::filter_distributes_over_add(
        states[0].messages,
        fresh,
        |m: StoredMessage| m.session_id == session_id,
    );
    assert(messages_of(states.last().messages, session_id) =~= messages_of(fresh, session_id));
}

/// A new session reads back as it was stored: where every message has its session, what is
/// read of a session that was new, was stored, and of which messages were then stored, is
/// exactly these messages, with the project that was given for the session.
pub proof fn law_new_session_reads_back<E>(
    engine: Engine,
    old_tables: Tables,
    session_id: Seq<char>,
    project: Seq<char>,
    started_at: Option<Seq<char>>,
    session_replies: Seq<ReplyModel<E>>,
    messages: Seq<StoredMessage>,
    insert_replies: Seq<ReplyModel<E>>,
    states: Seq<Tables>,
    replies: Seq<ReplyModel<E>>,
    found: Seq<SearchResultModel>,
    new_tables: Tables,
)
    requires
        attached(old_tables),
        !old_tables.sessions.contains_key(session_id),
        ends::<UpsertSession, E>(
            engine,
            old_tables,
            storing_session::<E>(session_id, project, started_at),
            session_replies,
            Ok(()),
            states[0],
        ),
        stored_in_turn(engine, messages, insert_replies, states),
        ends::<FetchMessages, E>(
            engine,
            states.last(),
            reading::<E>(session_id),
            replies,
            Ok(found),
            new_tables,
        ),
    ensures
        found == messages_of(stored_ones(messages, insert_replies), session_id).map_values(
            |m: StoredMessage|
                SearchResultModel {
                    session_id,
                    project,
                    role: m.role,
                    content: m.content,
                    timestamp: m.timestamp,
                },
        ),
{
    law_stored_session(
        engine,
        old_tables,
        session_id,
        project,
        started_at,
        session_replies,
        states[0],
    );
    law_unknown_sessions_have_no_messages(old_tables, session_id);
    law_stored_messages_come_back(
        engine,
        session_id,
        messages,
        insert_replies,
        states,
        replies,
        found,
        new_tables,
    );
    let same = |m: StoredMessage| m.session_id == session_id;
    let all = stored_ones(messages, insert_replies);
    assert forall|i: int| 0 <= i < all.filter(same).len() implies same(
        #[trigger] all.filter(same)[i],
    ) by {
        all.lemma_filter_pred(same, i);
    }
    assert(found =~= all.filter(same).map_values(
        |m: StoredMessage|
            SearchResultModel {
                session_id,
                project,
                role: m.role,
                content: m.content,
                timestamp: m.timestamp,
            },
    ));
}

/// Messages of which some are left out go on to have different identifiers.
proof fn lemma_filter_distinct_uuids(
    all: Seq<StoredMessage>,
    keep: spec_fn(StoredMessage) -> bool,
)
    requires
        distinct_uuids(all),
    ensures
        distinct_uuids(all.filter(keep)),
    decreases all.len(),
{
    reveal(Seq::filter);
    if all.len() > 0 {
        let head = all.drop_last();
        assert forall|i: int, j: int|
            0 <= i < j < head.len() && #[trigger] head[i].uuid is Some implies #[trigger] head[
            j].uuid != head[i].uuid by {
            assert(all[j].uuid != all[i].uuid);
        }
        lemma_filter_distinct_uuids(head, keep);
        let kept = all.filter(keep);
        assert forall|i: int, j: int|
            0 <= i < j < kept.len() && #[trigger] kept[i].uuid is Some implies #[trigger] kept[
            j].uuid != kept[i].uuid by {
            let before = head.filter(keep);
            assert(kept[i] == before[i]);
            if j < before.len() {
                assert(kept[j] == before[j]);
            } else {
                assert(before.contains(before[i]));
                lemma_filter_members(head, keep, before[i]);
                let k = choose|k: int| 0 <= k < head.len() && head[k] == before[i];
                assert(all[k].uuid is Some);
                assert(all[all.len() - 1].uuid != all[k].uuid);
            }
        }
    }
}

/// A deletion takes away the session and exactly its messages, and the result is their
/// number. Everything else stays, and the identifiers of the deleted messages are free.
/// The messages that are left go on to have their sessions and identifiers of their own.
pub proof fn law_deleted_session<E>(
    engine: Engine,
    old_tables: Tables,
    session_id: Seq<char>,
    replies: Seq<ReplyModel<E>>,
    deleted: u64,
    new_tables: Tables,
)
    requires
        ends::<DeleteSession, E>(
            engine,
            old_tables,
            deleting::<E>(session_id),
            replies,
            Ok(deleted),
            new_tables,
        ),
    ensures
        deleted as nat == messages_of(old_tables.messages, session_id).len(),
        new_tables.sessions == old_tables.sessions.remove(session_id),
        new_tables.messages == old_tables.messages.filter(
            |m: StoredMessage| m.session_id != session_id,
        ),
        same_schema(old_tables, new_tables),
        old_tables.triggers ==> new_tables.index == old_tables.index,
        attached(old_tables) ==> attached(new_tables),
        distinct_uuids(old_tables.messages) ==> distinct_uuids(new_tables.messages),
        distinct_uuids(old_tables.messages) ==> forall|i: int|
            0 <= i < old_tables.messages.len() && (#[trigger] old_tables.messages[i]).session_id
                == session_id ==> !taken(new_tables.messages, old_tables.messages[i].uuid),
{
    let start = deleting::<E>(session_id);
    let between = lemma_ends_ask::<DeleteSession, E>(
        engine,
        old_tables,
        start,
        replies,
        Ok(deleted),
        new_tables,
    );
    let second = <DeleteSession as Task<E>>::after(start.next->Ask_0, replies.first());
    assert(replies.first().failure is None);
    assert(second.next->Ask_0 == DeleteModel::Session { deleted: replies.first().count });
    let last = lemma_ends_ask::<DeleteSession, E>(
        engine,
        between,
        second,
        replies.drop_first(),
        Ok(deleted),
        new_tables,
    );
    assert(replies.drop_first().first().failure is None);
    assert(new_tables == last);
    let all = old_tables.messages;
    let others = |m: StoredMessage| m.session_id != session_id;
    if attached(old_tables) {
        assert forall|i: int|
            0 <= i < new_tables.messages.len() implies new_tables.sessions.contains_key(
            (#[trigger] new_tables.messages[i]).session_id,
        ) by {
            let kept = new_tables.messages[i];
            assert(new_tables.messages.contains(kept));
            lemma_filter_members(all, others, kept);
            let j = choose|j: int| 0 <= j < all.len() && all[j] == kept;
            assert(old_tables.sessions.contains_key(all[j].session_id));
        }
    }
    if distinct_uuids(all) {
        lemma_filter_distinct_uuids(all, others);
        assert forall|i: int|
            0 <= i < all.len() && (#[trigger] all[i]).session_id == session_id implies !taken(
            new_tables.messages,
            all[i].uuid,
        ) by {
            if taken(new_tables.messages, all[i].uuid) {
                let k = choose|k: int|
                    0 <= k < new_tables.messages.len() && #[trigger] new_tables.messages[k].uuid
                        == all[i].uuid;
                let kept = new_tables.messages[k];
                assert(new_tables.messages.contains(kept));
                lemma_filter_members(all, others, kept);
                let j = choose|j: int| 0 <= j < all.len() && all[j] == kept;
                assert(all[j].uuid == all[i].uuid && i != j);
                if i < j {
                    assert(all[j].uuid != all[i].uuid);
                } else {
                    assert(all[i].uuid != all[j].uuid);
                }
            }
        }
    }
}

/// Deleting a session of which nothing is stored deletes no message and changes nothing.
pub proof fn law_deleting_an_unknown_session<E>(
    engine: Engine,
    old_tables: Tables,
    session_id: Seq<char>,
    replies: Seq<ReplyModel<E>>,
    deleted: u64,
    new_tables: Tables,
)
    requires
        !old_tables.sessions.contains_key(session_id),
        messages_of(old_tables.messages, session_id).len() == 0,
        ends::<DeleteSession, E>(
            engine,
            old_tables,
            deleting::<E>(session_id),
            replies,
            Ok(deleted),
            new_tables,
        ),
    ensures
        deleted == 0,
        same_rows(old_tables, new_tables),
        same_schema(old_tables, new_tables),
{
    law_deleted_session(engine, old_tables, session_id, replies, deleted, new_tables);
    let others = |m: StoredMessage| m.session_id != session_id;
    let same = |m: StoredMessage| m.session_id == session_id;
    assert forall|i: int| 0 <= i < old_tables.messages.len() implies others(
        #[trigger] old_tables.messages[i],
    ) by {
        if same(old_tables.messages[i]) {
            old_tables.messages.lemma_filter_contains(same, i);
        }
    }
    lemma_filter_all_or_none(old_tables.messages, others);
    assert(new_tables.sessions =~= old_tables.sessions);
}

/// Deleting a session a second time deletes no message and changes nothing.
pub proof fn law_deleting_a_session_twice<E>(
    engine: Engine,
    old_tables: Tables,
    session_id: Seq<char>,
    first_replies: Seq<ReplyModel<E>>,
    deleted: u64,
    tables: Tables,
    second_replies: Seq<ReplyModel<E>>,
    again: u64,
    new_tables: Tables,
)
    requires
        ends::<DeleteSession, E>(
            engine,
            old_tables,
            deleting::<E>(session_id),
            first_replies,
            Ok(deleted),
            tables,
        ),
        ends::<DeleteSession, E>(
            engine,
            tables,
            deleting::<E>(session_id),
            second_replies,
            Ok(again),
            new_tables,
        ),
    ensures
        again == 0,
        same_rows(tables, new_tables),
        same_schema(tables, new_tables),
{
    law_deleted_session(engine, old_tables, session_id, first_replies, deleted, tables);
    let others = |m: StoredMessage| m.session_id != session_id;
    let same = |m: StoredMessage| m.session_id == session_id;
    assert forall|i: int| 0 <= i < tables.messages.len() implies !same(
        #[trigger] tables.messages[i],
    ) by {
        old_tables.messages.lemma_filter_pred(others, i);
    }
    lemma_filter_all_or_none(tables.messages, same);
    law_deleting_an_unknown_session(
        engine,
        tables,
        session_id,
        second_replies,
        again,
        new_tables,
    );
}

} // verus!
