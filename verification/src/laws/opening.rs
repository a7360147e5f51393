//! Opening a vault: what it leaves of the tables, and that opening it again changes nothing.
use vstd::prelude::*;
use crate::error::ErrorModel;
use crate::laws::{answered, lemma_ends_as_run, lemma_ends_ask, lemma_rest_is_answered};
use crate::store::fetch_count;
use crate::tables::{
    answers, attached, distinct_uuids, ends, leads, ready, same_rows, same_schema, text_rows,
    Engine, Tables,
};
use crate::task::{
    asked, first_integer, first_row, is_query, ReplyModel, RequestModel, StepModel, Task,
    ValueModel,
};
use crate::text::contains;
use crate::vault::{
    batch, create_triggers, fetch_index, fetch_schema, index_in, law_created_schema_is_current,
    law_current_schema_is_left_alone, law_vault_syncs_as_opened, migrating, opening,
    reaches_schema, schema_in, stems, until_schema, OpenModel, OpenVault, SyncOptionsModel,
    VaultModel, CONFIGURE, CREATE_INDEX, CREATE_TABLES, CREATE_TRIGGERS, DROP_INDEX, INDEX_EXISTS,
    REBUILD_INDEX,
};

verus! {

/// Whether there is an index that does not reduce words to their stems.
pub open spec fn outdated(tables: Tables) -> bool {
    tables.index is Some && !contains(tables.index->0.sql, "porter"@)
}

/// What the migration of the full-text index makes of the tables. The sessions and the
/// messages stay as they are, and the index reduces words to their stems. One that did so
/// before is kept. One that did not is replaced by one that holds every message; so is none
/// at all where there are no messages.
pub open spec fn index_migrated(start: Tables, now: Tables) -> bool {
    &&& same_rows(start, now)
    &&& now.index is Some
    &&& contains(now.index->0.sql, "porter"@)
    &&& start.index is Some && !outdated(start) ==> now.index == start.index
    &&& start.index is None || outdated(start) ==> now.index->0.external
    &&& outdated(start) ==> now.index->0.complete
    &&& start.index is None && start.messages.len() == 0 ==> now.index->0.complete
}

/// What the opening of a vault makes of its tables: they are ready, and the full-text
/// index is migrated. Tables that were ready stay as they are; else they have triggers.
pub open spec fn brought_up_to_date(start: Tables, now: Tables) -> bool {
    &&& ready(now)
    &&& ready(start) ==> now == start
    &&& !ready(start) ==> now.triggers
    &&& index_migrated(start, now)
}

/// What an opening asks for in a state, once a sync server has nothing more to do with it.
spec fn awaited(state: OpenModel) -> RequestModel {
    match state {
        OpenModel::Opening { .. } => RequestModel::OpenLocal,
        OpenModel::Connecting { .. } => RequestModel::Connect,
        OpenModel::Pulling => RequestModel::Sync,
        OpenModel::Configuring => batch(CONFIGURE@),
        OpenModel::CheckingSchema { .. } => fetch_schema(),
        OpenModel::CreatingTables { .. } => batch(CREATE_TABLES@),
        OpenModel::LookingForIndex { .. } => fetch_count(INDEX_EXISTS@),
        OpenModel::ReadingIndex { .. } => fetch_index(),
        OpenModel::DroppingIndex { .. } => batch(DROP_INDEX@),
        OpenModel::CreatingIndex { .. } => batch(CREATE_INDEX@),
        OpenModel::RebuildingIndex { .. } => batch(REBUILD_INDEX@),
        OpenModel::CreatingTriggers { .. } => batch(CREATE_TRIGGERS@),
    }
}

/// What holds of the tables `now`, those at the start being `start`, while an opening waits
/// in a state. It starts as a local vault, or where the sync server has been asked.
spec fn on_the_way(state: OpenModel, start: Tables, now: Tables) -> bool {
    &&& same_rows(start, now)
    &&& match state {
        OpenModel::Opening { url, .. } => now == start && url is None,
        OpenModel::Connecting { synced } => now == start && !synced,
        OpenModel::Pulling => false,
        OpenModel::Configuring | OpenModel::CheckingSchema { .. } => now == start,
        OpenModel::CreatingTables { .. } => now == start && !ready(start),
        OpenModel::LookingForIndex { .. } => {
            now.created && now.index == start.index && !ready(start)
        },
        OpenModel::ReadingIndex { .. } => {
            now.created && now.index == start.index && now.index is Some && !ready(start)
        },
        OpenModel::DroppingIndex { .. } => now.created && outdated(start),
        OpenModel::CreatingIndex { rebuild, .. } => now.created && (if rebuild {
            outdated(start)
        } else {
            start.index is None
        }),
        OpenModel::RebuildingIndex { .. } => {
            ready(now) && now.index->0.external && outdated(start)
        },
        OpenModel::CreatingTriggers { .. } => {
            ready(now) && !ready(start) && index_migrated(start, now)
        },
    }
}

/// Where a reply lets an opening go on, what holds in its state goes on to hold in the next
/// one.
proof fn lemma_next_state<E>(
    engine: Engine,
    start: Tables,
    now: Tables,
    state: OpenModel,
    reply: ReplyModel<E>,
    new_tables: Tables,
)
    requires
        on_the_way(state, start, now),
        answers(engine, now, awaited(state), reply, new_tables),
    ensures
        ({
            let next = <OpenVault as Task<E>>::after(state, reply).next;
            &&& next is Ask ==> {
                &&& next->Ask_1 == awaited(next->Ask_0)
                &&& on_the_way(next->Ask_0, start, new_tables)
            }
            &&& next is Done ==> brought_up_to_date(start, new_tables)
            &&& reply.failure is None ==> !(next is Failed)
        }),
{
    match state {
        OpenModel::CheckingSchema { .. } => {
            if reply.failure is None {
                assert(first_row(reply) is Ok);
                assert(schema_in(reply) == Ok::<bool, ErrorModel<E>>(ready(now)));
            }
        },
        OpenModel::LookingForIndex { .. } => {
            if reply.failure is None {
                assert(first_row(reply) is Ok);
                assert(first_integer(reply) is Ok);
            }
        },
        OpenModel::ReadingIndex { .. } => {
            if reply.failure is None {
                assert(reply.rows == text_rows(seq![now.index->0.sql]));
                assert(reply.rows[0] == seq![ValueModel::Text(now.index->0.sql)]);
                assert(index_in(reply) == Ok::<bool, ErrorModel<E>>(stems(now.index->0.sql)));
            }
        },
        OpenModel::CreatingIndex { .. } => {
            if reply.failure is None {
                law_created_schema_is_current(new_tables.index->0.sql);
            }
        },
        _ => {},
    }
}

/// An opening brings the tables up to date from any state on.
proof fn lemma_opening<E>(
    engine: Engine,
    start: Tables,
    now: Tables,
    step: StepModel<OpenModel, VaultModel, E>,
    replies: Seq<ReplyModel<E>>,
    vault: VaultModel,
    new_tables: Tables,
)
    requires
        step.next is Ask,
        step.next->Ask_1 == awaited(step.next->Ask_0),
        on_the_way(step.next->Ask_0, start, now),
        ends::<OpenVault, E>(engine, now, step, replies, Ok(vault), new_tables),
    ensures
        brought_up_to_date(start, new_tables),
    decreases replies.len(),
{
    let tables = lemma_ends_ask::<OpenVault, E>(
        engine,
        now,
        step,
        replies,
        Ok(vault),
        new_tables,
    );
    let state = step.next->Ask_0;
    lemma_next_state(engine, start, now, state, replies.first(), tables);
    let next = <OpenVault as Task<E>>::after(state, replies.first());
    if next.next is Ask {
        lemma_opening(engine, start, tables, next, replies.drop_first(), vault, new_tables);
    }
}

/// An opening whose requests are answered succeeds from any state on.
proof fn lemma_answered_opening<E>(
    engine: Engine,
    start: Tables,
    now: Tables,
    step: StepModel<OpenModel, VaultModel, E>,
    replies: Seq<ReplyModel<E>>,
    result: Result<VaultModel, ErrorModel<E>>,
    new_tables: Tables,
)
    requires
        step.next is Ask,
        step.next->Ask_1 == awaited(step.next->Ask_0),
        on_the_way(step.next->Ask_0, start, now),
        ends::<OpenVault, E>(engine, now, step, replies, result, new_tables),
        answered(replies),
    ensures
        result is Ok,
    decreases replies.len(),
{
    let tables = lemma_ends_ask::<OpenVault, E>(engine, now, step, replies, result, new_tables);
    let state = step.next->Ask_0;
    lemma_rest_is_answered(replies);
    lemma_next_state(engine, start, now, state, replies.first(), tables);
    let next = <OpenVault as Task<E>>::after(state, replies.first());
    if next.next is Ask {
        lemma_answered_opening(
            engine,
            start,
            tables,
            next,
            replies.drop_first(),
            result,
            new_tables,
        );
    }
}

/// A vault whose requests are answered gets open, with a sync server exactly where it was
/// opened with one. Of the requests of a synced vault, the pull may fail.
pub proof fn law_answered_opening_succeeds<E>(
    engine: Engine,
    old_tables: Tables,
    path: Seq<char>,
    sync: Option<SyncOptionsModel>,
    replies: Seq<ReplyModel<E>>,
    result: Result<VaultModel, ErrorModel<E>>,
    new_tables: Tables,
)
    requires
        ends::<OpenVault, E>(
            engine,
            old_tables,
            opening::<E>(path, sync),
            replies,
            result,
            new_tables,
        ),
        forall|i: int|
            0 <= i < replies.len() && (sync is None || i != 2) ==> (
            #[trigger] replies[i]).failure is None,
    ensures
        result == Ok::<VaultModel, ErrorModel<E>>(VaultModel { sync_enabled: sync is Some }),
{
    let start = opening::<E>(path, sync);
    let t1 = lemma_ends_ask::<OpenVault, E>(engine, old_tables, start, replies, result, new_tables);
    let r1 = replies.drop_first();
    assert(replies[0].failure is None);
    let s1 = <OpenVault as Task<E>>::after(start.next->Ask_0, replies.first());
    let t2 = lemma_ends_ask::<OpenVault, E>(engine, t1, s1, r1, result, new_tables);
    let r2 = r1.drop_first();
    assert(r1.first() == replies[1]);
    let s2 = <OpenVault as Task<E>>::after(s1.next->Ask_0, r1.first());
    let t3 = lemma_ends_ask::<OpenVault, E>(engine, t2, s2, r2, result, new_tables);
    let r3 = r2.drop_first();
    assert(r2.first() == replies[2]);
    let s3 = <OpenVault as Task<E>>::after(s2.next->Ask_0, r2.first());
    assert forall|i: int| 0 <= i < r3.len() implies (#[trigger] r3[i]).failure is None by {
        assert(r3[i] == replies[i + 3]);
    }
    lemma_answered_opening(engine, t3, t3, s3, r3, result, new_tables);
    lemma_ends_as_run::<OpenVault, E>(engine, old_tables, start, replies, result, new_tables);
    law_vault_syncs_as_opened(path, sync, replies);
}

/// Opening a local vault brings its tables up to date and keeps every session and every
/// message.
pub proof fn law_opening_brings_up_to_date<E>(
    engine: Engine,
    old_tables: Tables,
    path: Seq<char>,
    replies: Seq<ReplyModel<E>>,
    vault: VaultModel,
    new_tables: Tables,
)
    requires
        ends::<OpenVault, E>(
            engine,
            old_tables,
            opening::<E>(path, None),
            replies,
            Ok(vault),
            new_tables,
        ),
    ensures
        brought_up_to_date(old_tables, new_tables),
        attached(old_tables) ==> attached(new_tables),
        distinct_uuids(old_tables.messages) ==> distinct_uuids(new_tables.messages),
{
    lemma_opening(
        engine,
        old_tables,
        old_tables,
        opening::<E>(path, None),
        replies,
        vault,
        new_tables,
    );
}

/// An opening that ends has asked for the schema, with the tables that it found there: a
/// local vault has those of the start, a synced one those that the pull has left. Where these
/// are ready, nothing else is asked for. Otherwise they are brought up to date.
proof fn lemma_opening_from_schema<E>(
    engine: Engine,
    old_tables: Tables,
    path: Seq<char>,
    sync: Option<SyncOptionsModel>,
    replies: Seq<ReplyModel<E>>,
    vault: VaultModel,
    new_tables: Tables,
) -> (pulled: Tables)
    requires
        ends::<OpenVault, E>(
            engine,
            old_tables,
            opening::<E>(path, sync),
            replies,
            Ok(vault),
            new_tables,
        ),
    ensures
        sync is None ==> pulled == old_tables,
        brought_up_to_date(pulled, new_tables),
        ready(pulled) ==> asked::<OpenVault, E>(opening::<E>(path, sync), replies)
            == until_schema(sync),
{
    let start = opening::<E>(path, sync);
    let t1 = lemma_ends_ask::<OpenVault, E>(
        engine,
        old_tables,
        start,
        replies,
        Ok(vault),
        new_tables,
    );
    let r1 = replies.drop_first();
    let s1 = <OpenVault as Task<E>>::after(start.next->Ask_0, replies.first());
    let t2 = lemma_ends_ask::<OpenVault, E>(engine, t1, s1, r1, Ok(vault), new_tables);
    let r2 = r1.drop_first();
    let s2 = <OpenVault as Task<E>>::after(s1.next->Ask_0, r1.first());
    let t3 = lemma_ends_ask::<OpenVault, E>(engine, t2, s2, r2, Ok(vault), new_tables);
    let r3 = r2.drop_first();
    let s3 = <OpenVault as Task<E>>::after(s2.next->Ask_0, r2.first());
    assert(s3.next->Ask_0 == OpenModel::CheckingSchema { synced: sync is Some });
    lemma_opening(engine, t3, t3, s3, r3, vault, new_tables);
    let t4 = lemma_ends_ask::<OpenVault, E>(engine, t3, s3, r3, Ok(vault), new_tables);
    assert(replies[1] == r1.first() && replies[2] == r2.first() && replies[3] == r3.first());
    if ready(t3) {
        let reply = replies[3];
        assert(reply.failure is None);
        assert(first_row(reply) is Ok);
        assert(schema_in(reply) == Ok::<bool, ErrorModel<E>>(true));
        assert(reaches_schema(sync, replies));
        law_current_schema_is_left_alone(path, sync, replies);
    }
    t3
}

/// Opening a synced vault brings up to date what the pull has left, be it new or, where the
/// sync server was out of reach, as old as before. Where that is ready, no statement that
/// creates, drops or rebuilds anything is asked for.
pub proof fn law_synced_opening_brings_up_to_date<E>(
    engine: Engine,
    old_tables: Tables,
    path: Seq<char>,
    options: SyncOptionsModel,
    replies: Seq<ReplyModel<E>>,
    vault: VaultModel,
    new_tables: Tables,
)
    requires
        ends::<OpenVault, E>(
            engine,
            old_tables,
            opening::<E>(path, Some(options)),
            replies,
            Ok(vault),
            new_tables,
        ),
    ensures
        ready(new_tables),
        exists|pulled: Tables|
            #![trigger brought_up_to_date(pulled, new_tables)]
            brought_up_to_date(pulled, new_tables) && (ready(pulled) ==> asked::<OpenVault, E>(
                opening::<E>(path, Some(options)),
                replies,
            ) == until_schema(Some(options))),
{
    let pulled = lemma_opening_from_schema(
        engine,
        old_tables,
        path,
        Some(options),
        replies,
        vault,
        new_tables,
    );
    assert(brought_up_to_date(pulled, new_tables));
}

/// A local vault that was opened once, and in which sessions and messages were then stored
/// or deleted, is opened again without a statement that creates, drops or rebuilds
/// anything, and everything in it stays as it was left. In particular, an index that was
/// replaced at the first opening is not replaced again.
pub proof fn law_reopening_changes_nothing<E>(
    engine: Engine,
    old_tables: Tables,
    path: Seq<char>,
    first_replies: Seq<ReplyModel<E>>,
    first_vault: VaultModel,
    opened: Tables,
    left: Tables,
    second_replies: Seq<ReplyModel<E>>,
    second_vault: VaultModel,
    new_tables: Tables,
)
    requires
        ends::<OpenVault, E>(
            engine,
            old_tables,
            opening::<E>(path, None),
            first_replies,
            Ok(first_vault),
            opened,
        ),
        same_schema(opened, left),
        ends::<OpenVault, E>(
            engine,
            left,
            opening::<E>(path, None),
            second_replies,
            Ok(second_vault),
            new_tables,
        ),
    ensures
        new_tables == left,
        asked::<OpenVault, E>(opening::<E>(path, None), second_replies) == until_schema(None),
        forall|i: int|
            0 <= i < until_schema(None).len() && #[trigger] until_schema(None)[i] is Batch
                ==> until_schema(None)[i] == batch(CONFIGURE@),
{
    law_opening_brings_up_to_date(
        engine,
        old_tables,
        path,
        first_replies,
        first_vault,
        opened,
    );
    assert(ready(left));
    let found = lemma_opening_from_schema(
        engine,
        left,
        path,
        None,
        second_replies,
        second_vault,
        new_tables,
    );
    assert(found == left);
}

/// Where a migration has got: to a state of its own, or to its end.
spec fn migration_at(state: OpenModel) -> bool {
    ||| state is LookingForIndex
    ||| state is ReadingIndex
    ||| state is DroppingIndex
    ||| state is CreatingIndex
    ||| state is RebuildingIndex
}

/// What holds of the tables `now` while a migration that has started with `start` waits in
/// a state.
spec fn migration_goes(state: OpenModel, start: Tables, now: Tables) -> bool {
    &&& same_rows(start, now)
    &&& now.created == start.created
    &&& match state {
        OpenModel::LookingForIndex { .. } => now == start,
        OpenModel::ReadingIndex { .. } => now == start && start.index is Some,
        OpenModel::DroppingIndex { .. } => now == start && outdated(start),
        OpenModel::CreatingIndex { rebuild, .. } => if rebuild {
            outdated(start)
        } else {
            start.index is None
        },
        OpenModel::RebuildingIndex { .. } => {
            &&& outdated(start)
            &&& now.index is Some
            &&& contains(now.index->0.sql, "porter"@)
            &&& now.index->0.external
        },
        OpenModel::CreatingTriggers { .. } => {
            &&& index_migrated(start, now)
            &&& start.index is Some && !outdated(start) ==> now == start
        },
        _ => false,
    }
}

/// A migration that has come to the triggers has done its work, from any state on. Where
/// the index reduced words to their stems, it has only read rows.
proof fn lemma_migration<E>(
    engine: Engine,
    start: Tables,
    now: Tables,
    step: StepModel<OpenModel, VaultModel, E>,
    replies: Seq<ReplyModel<E>>,
    last: StepModel<OpenModel, VaultModel, E>,
    new_tables: Tables,
)
    requires
        step.next is Ask,
        step.next->Ask_1 == awaited(step.next->Ask_0),
        migration_goes(step.next->Ask_0, start, now),
        migration_at(step.next->Ask_0) || replies.len() == 0,
        leads::<OpenVault, E>(engine, now, step, replies, last, new_tables),
        last.next is Ask,
        last.next->Ask_0 is CreatingTriggers,
    ensures
        migration_goes(last.next->Ask_0, start, new_tables),
        asked::<OpenVault, E>(step, replies).len() == replies.len() + 1,
        start.index is Some && !outdated(start) && (step.next->Ask_0 is LookingForIndex
            || step.next->Ask_0 is ReadingIndex) ==> forall|i: int|
            0 <= i < replies.len() ==> is_query(#[trigger] asked::<OpenVault, E>(step, replies)[i]),
    decreases replies.len(),
{
    if replies.len() > 0 {
        let state = step.next->Ask_0;
        let reply = replies.first();
        let rest = replies.drop_first();
        let next = <OpenVault as Task<E>>::after(state, reply);
        let tables = choose|tables: Tables| #[trigger]
            answers(engine, now, step.next->Ask_1, reply, tables) && leads::<OpenVault, E>(
                engine,
                tables,
                next,
                rest,
                last,
                new_tables,
            );
        if reply.failure is None {
            match state {
                OpenModel::LookingForIndex { .. } => {
                    assert(first_row(reply) is Ok);
                    assert(first_integer(reply) is Ok);
                },
                OpenModel::ReadingIndex { .. } => {
                    assert(reply.rows == text_rows(seq![now.index->0.sql]));
                    assert(reply.rows[0] == seq![ValueModel::Text(now.index->0.sql)]);
                    assert(index_in(reply) == Ok::<bool, ErrorModel<E>>(
                        stems(now.index->0.sql),
                    ));
                },
                OpenModel::CreatingIndex { .. } => {
                    law_created_schema_is_current(tables.index->0.sql);
                },
                _ => {},
            }
        }
        assert(next.next is Ask);
        if next.next->Ask_0 is CreatingTriggers {
            lemma_triggers_come_last(engine, tables, next, rest, last, new_tables);
        }
        lemma_migration(engine, start, tables, next, rest, last, new_tables);
        assert(asked::<OpenVault, E>(step, replies) == seq![step.next->Ask_1] + asked::<
            OpenVault,
            E,
        >(next, rest));
    }
}

/// Behind the triggers nothing more is asked for.
proof fn lemma_triggers_come_last<E>(
    engine: Engine,
    now: Tables,
    step: StepModel<OpenModel, VaultModel, E>,
    replies: Seq<ReplyModel<E>>,
    last: StepModel<OpenModel, VaultModel, E>,
    new_tables: Tables,
)
    requires
        step.next is Ask,
        step.next->Ask_0 is CreatingTriggers,
        leads::<OpenVault, E>(engine, now, step, replies, last, new_tables),
        last.next is Ask,
    ensures
        replies.len() == 0,
{
    if replies.len() > 0 {
        let next = <OpenVault as Task<E>>::after(step.next->Ask_0, replies.first());
        let rest = replies.drop_first();
        let tables = choose|tables: Tables| #[trigger]
            answers(engine, now, step.next->Ask_1, replies.first(), tables) && leads::<
                OpenVault,
                E,
            >(engine, tables, next, rest, last, new_tables);
        assert(!(next.next is Ask));
        assert(leads::<OpenVault, E>(engine, tables, next, rest, last, new_tables));
    }
}

/// A migration, from its first step until the triggers are asked for, leaves an index that
/// reduces words to their stems. One that did so before is left alone, and only read. Any
/// other is replaced by one that holds every message. No session and no message changes.
pub proof fn law_migration<E>(
    engine: Engine,
    old_tables: Tables,
    synced: bool,
    replies: Seq<ReplyModel<E>>,
    last: StepModel<OpenModel, VaultModel, E>,
    new_tables: Tables,
)
    requires
        leads::<OpenVault, E>(
            engine,
            old_tables,
            migrating::<E>(synced),
            replies,
            last,
            new_tables,
        ),
        last.next == create_triggers::<E>(synced).next,
    ensures
        index_migrated(old_tables, new_tables),
        new_tables.created == old_tables.created,
        old_tables.index is Some && !outdated(old_tables) ==> new_tables == old_tables && forall|
            i: int,
        |
            0 <= i < replies.len() ==> is_query(
                #[trigger] asked::<OpenVault, E>(migrating::<E>(synced), replies)[i],
            ),
{
    lemma_migration(
        engine,
        old_tables,
        old_tables,
        migrating::<E>(synced),
        replies,
        last,
        new_tables,
    );
}

/// A second migration changes nothing.
pub proof fn law_migrating_twice<E>(
    engine: Engine,
    old_tables: Tables,
    synced: bool,
    first_replies: Seq<ReplyModel<E>>,
    first_last: StepModel<OpenModel, VaultModel, E>,
    tables: Tables,
    second_replies: Seq<ReplyModel<E>>,
    second_last: StepModel<OpenModel, VaultModel, E>,
    new_tables: Tables,
)
    requires
        leads::<OpenVault, E>(
            engine,
            old_tables,
            migrating::<E>(synced),
            first_replies,
            first_last,
            tables,
        ),
        first_last.next == create_triggers::<E>(synced).next,
        leads::<OpenVault, E>(
            engine,
            tables,
            migrating::<E>(synced),
            second_replies,
            second_last,
            new_tables,
        ),
        second_last.next == create_triggers::<E>(synced).next,
    ensures
        new_tables == tables,
{
    law_migration(engine, old_tables, synced, first_replies, first_last, tables);
    law_migration(engine, tables, synced, second_replies, second_last, new_tables);
}

} // verus!
