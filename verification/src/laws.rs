//! What holds of the operations and the tables together, and of what the operations are made of:
//! the texts, the requests and what is made of the replies.
//!
//! A law on tables speaks of a database that answers as [`crate::tables`] says.
use vstd::prelude::*;
use crate::error::ErrorModel;
use crate::messages::{message_in, messages_in, SearchResultModel};
use crate::tables::{answers, ends, message_row, Engine, Tables};
use crate::task::{run, NextModel, ReplyModel, StepModel, Task};

pub mod checking;
pub mod names;
pub mod opening;
pub mod previews;
pub mod queries;
pub mod reading;
pub mod replies;
pub mod reports;
pub mod requests;
pub mod steps;
pub mod succeeding;
pub mod texts;
pub mod views;
pub mod writing;

verus! {

/// An operation that asks for something goes on with the first of the replies. The result
/// is the tables that the request leaves.
pub proof fn lemma_ends_ask<T: Task<E>, E>(
    engine: Engine,
    old_tables: Tables,
    step: StepModel<T::V, <T::Output as DeepView>::V, E>,
    replies: Seq<ReplyModel<E>>,
    result: Result<<T::Output as DeepView>::V, ErrorModel<E>>,
    new_tables: Tables,
) -> (tables: Tables)
    requires
        ends::<T, E>(engine, old_tables, step, replies, result, new_tables),
        step.next is Ask,
    ensures
        replies.len() > 0,
        answers(engine, old_tables, step.next->Ask_1, replies.first(), tables),
        ends::<T, E>(
            engine,
            tables,
            T::after(step.next->Ask_0, replies.first()),
            replies.drop_first(),
            result,
            new_tables,
        ),
{
    choose|tables: Tables| #[trigger]
        answers(engine, old_tables, step.next->Ask_1, replies.first(), tables) && ends::<T, E>(
            engine,
            tables,
            T::after(step.next->Ask_0, replies.first()),
            replies.drop_first(),
            result,
            new_tables,
        )
}

/// An operation ends with the result that its steps come to.
pub proof fn lemma_ends_as_run<T: Task<E>, E>(
    engine: Engine,
    old_tables: Tables,
    step: StepModel<T::V, <T::Output as DeepView>::V, E>,
    replies: Seq<ReplyModel<E>>,
    result: Result<<T::Output as DeepView>::V, ErrorModel<E>>,
    new_tables: Tables,
)
    requires
        ends::<T, E>(engine, old_tables, step, replies, result, new_tables),
    ensures
        match run::<T, E>(step, replies).next {
            NextModel::Ask(..) => false,
            NextModel::Done(value) => result == Ok::<
                <T::Output as DeepView>::V,
                ErrorModel<E>,
            >(value),
            NextModel::Failed(error) => result == Err::<
                <T::Output as DeepView>::V,
                ErrorModel<E>,
            >(error),
        },
    decreases replies.len(),
{
    if step.next is Ask {
        let tables = lemma_ends_ask::<T, E>(engine, old_tables, step, replies, result, new_tables);
        lemma_ends_as_run::<T, E>(
            engine,
            tables,
            T::after(step.next->Ask_0, replies.first()),
            replies.drop_first(),
            result,
            new_tables,
        );
    }
}

/// Whether no request has failed.
pub open spec fn answered<E>(replies: Seq<ReplyModel<E>>) -> bool {
    forall|i: int| 0 <= i < replies.len() ==> (#[trigger] replies[i]).failure is None
}

/// Where no request has failed, none behind the first one has.
pub proof fn lemma_rest_is_answered<E>(replies: Seq<ReplyModel<E>>)
    requires
        answered(replies),
        replies.len() > 0,
    ensures
        replies.first().failure is None,
        answered(replies.drop_first()),
{
    assert(replies.first() == replies[0]);
    assert forall|i: int| 0 <= i < replies.drop_first().len() implies (
    #[trigger] replies.drop_first()[i]).failure is None by {
        assert(replies.drop_first()[i] == replies[i + 1]);
    }
}

/// Rows of messages are read as these messages.
pub proof fn lemma_message_rows<E>(reply: ReplyModel<E>, messages: Seq<SearchResultModel>)
    requires
        reply.failure is None,
        reply.rows == messages.map_values(|m: SearchResultModel| message_row(m)),
    ensures
        messages_in(reply) == Ok::<Seq<SearchResultModel>, ErrorModel<E>>(messages),
{
    assert forall|i: int| 0 <= i < reply.rows.len() implies message_in(#[trigger] reply.rows[i])
        == Some(messages[i]) by {
        assert(reply.rows[i] == message_row(messages[i]));
    }
    assert(messages_in(reply)->Ok_0 =~= messages);
}

/// The members of a filtered sequence are those that pass.
pub proof fn lemma_filter_members<A>(all: Seq<A>, keep: spec_fn(A) -> bool, x: A)
    ensures
        all.filter(keep).contains(x) <==> all.contains(x) && keep(x),
{
    if all.filter(keep).contains(x) {
        all.lemma_filter_contains_rev(keep, x);
        let i = choose|i: int| 0 <= i < all.filter(keep).len() && all.filter(keep)[i] == x;
        all.lemma_filter_pred(keep, i);
    }
    if all.contains(x) && keep(x) {
        let i = choose|i: int| 0 <= i < all.len() && all[i] == x;
        all.lemma_filter_contains(keep, i);
    }
}

/// Filtering keeps everything where everything passes, and nothing where nothing does.
pub proof fn lemma_filter_all_or_none<A>(all: Seq<A>, keep: spec_fn(A) -> bool)
    ensures
        (forall|i: int| 0 <= i < all.len() ==> keep(#[trigger] all[i])) ==> all.filter(keep) == all,
        (forall|i: int| 0 <= i < all.len() ==> !keep(#[trigger] all[i])) ==> all.filter(keep).len()
            == 0,
    decreases all.len(),
{
    reveal(Seq::filter);
    if all.len() > 0 {
        let head = all.drop_last();
        lemma_filter_all_or_none(head, keep);
        assert(all[all.len() - 1] == all.last());
        assert(forall|i: int| 0 <= i < head.len() ==> head[i] == all[i]);
        if forall|i: int| 0 <= i < all.len() ==> keep(#[trigger] all[i]) {
            assert forall|i: int| 0 <= i < head.len() implies keep(#[trigger] head[i]) by {
                assert(keep(all[i]));
            }
            assert(all.filter(keep) =~= all);
        }
        if forall|i: int| 0 <= i < all.len() ==> !keep(#[trigger] all[i]) {
            assert forall|i: int| 0 <= i < head.len() implies !keep(#[trigger] head[i]) by {
                assert(!keep(all[i]));
            }
        }
    }
}

} // verus!
