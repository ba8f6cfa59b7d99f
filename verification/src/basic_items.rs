use bson::Document;
use vstd::prelude::*;

use crate::document::{document_get_str, document_str_fields};

verus! {

/// Where the insertion of a manage's basic items stands.
#[derive(PartialEq, Eq, Structural, Debug, Clone, Copy)]
pub enum BasicItemsRun {
    /// Waiting to hear whether an entity with the id of this item exists.
    AwaitingExistence { index: usize },
    /// Waiting for the insertion of this item to end.
    AwaitingInsertion { index: usize },
    /// Every item was dealt with; `total` items were listed.
    Finished { total: usize },
    /// This item has no string id: the run cannot go on.
    Stopped { index: usize },
}

/// The next thing to do with a manage's basic items. `CheckExists` is
/// answered with whether the entity exists, `Insert` with whether the
/// insertion succeeded.
#[derive(Debug, PartialEq)]
pub enum BasicItemAction {
    CheckExists { index: usize, id: String },
    Insert { index: usize },
    Finish { total: usize },
    MissingId { index: usize },
}

/// The mathematical value of an action on basic items.
pub enum BasicItemActionView {
    CheckExists { index: usize, id: Seq<char> },
    Insert { index: usize },
    Finish { total: usize },
    MissingId { index: usize },
}

impl View for BasicItemAction {
    type V = BasicItemActionView;

    open spec fn view(&self) -> BasicItemActionView {
        match self {
            BasicItemAction::CheckExists { index, id } => BasicItemActionView::CheckExists { index: *index, id: id@ },
            BasicItemAction::Insert { index } => BasicItemActionView::Insert { index: *index },
            BasicItemAction::Finish { total } => BasicItemActionView::Finish { total: *total },
            BasicItemAction::MissingId { index } => BasicItemActionView::MissingId { index: *index },
        }
    }
}

/// Turning to item `i`: finish when there is none, else check the existence
/// of its id, or stop when it has no string id under `key`.
pub open spec fn items_visit_spec(items: Seq<Document>, key: Seq<char>, i: int) -> (BasicItemsRun, BasicItemActionView) {
    if i >= items.len() {
        (
            BasicItemsRun::Finished { total: items.len() as usize },
            BasicItemActionView::Finish { total: items.len() as usize },
        )
    } else if document_str_fields(items[i]).contains_key(key) {
        (
            BasicItemsRun::AwaitingExistence { index: i as usize },
            BasicItemActionView::CheckExists { index: i as usize, id: document_str_fields(items[i])[key] },
        )
    } else {
        (BasicItemsRun::Stopped { index: i as usize }, BasicItemActionView::MissingId { index: i as usize })
    }
}

/// One step: an item whose id exists is passed over, one whose id does not
/// is inserted; after the insertion (whether it succeeded or not) the next
/// item is taken. Finished and stopped runs stay as they are.
pub open spec fn items_advance_spec(
    items: Seq<Document>,
    key: Seq<char>,
    s: BasicItemsRun,
    reply: bool,
) -> (BasicItemsRun, BasicItemActionView) {
    match s {
        BasicItemsRun::AwaitingExistence { index } => {
            if reply {
                items_visit_spec(items, key, index + 1)
            } else {
                (BasicItemsRun::AwaitingInsertion { index }, BasicItemActionView::Insert { index })
            }
        },
        BasicItemsRun::AwaitingInsertion { index } => items_visit_spec(items, key, index + 1),
        BasicItemsRun::Finished { total } => (s, BasicItemActionView::Finish { total }),
        BasicItemsRun::Stopped { index } => (s, BasicItemActionView::MissingId { index }),
    }
}

impl BasicItemsRun {
    /// Whether the state belongs to a run over `len` items.
    pub open spec fn fits(self, len: nat) -> bool {
        match self {
            BasicItemsRun::AwaitingExistence { index } => index < len,
            BasicItemsRun::AwaitingInsertion { index } => index < len,
            BasicItemsRun::Finished { total } => total == len,
            BasicItemsRun::Stopped { index } => index < len,
        }
    }

    /// Whether the run is over.
    pub open spec fn is_terminal(self) -> bool {
        self is Finished || self is Stopped
    }

    fn visit(items: &Vec<Document>, key: &str, i: usize) -> (r: (BasicItemsRun, BasicItemAction))
        requires
            i <= items@.len(),
        ensures
            r.0 == items_visit_spec(items@, key@, i as int).0,
            r.1@ == items_visit_spec(items@, key@, i as int).1,
            r.0.fits(items@.len()),
    {
        if i >= items.len() {
            let total = items.len();
            (BasicItemsRun::Finished { total }, BasicItemAction::Finish { total })
        } else {
            match document_get_str(&items[i], key) {
                Some(id) => (BasicItemsRun::AwaitingExistence { index: i }, BasicItemAction::CheckExists { index: i, id }),
                None => (BasicItemsRun::Stopped { index: i }, BasicItemAction::MissingId { index: i }),
            }
        }
    }

    /// Starts on the basic items of a manage, whose ids are the string fields
    /// under `key`: turn to the first item.
    pub fn start(items: &Vec<Document>, key: &str) -> (r: (BasicItemsRun, BasicItemAction))
        ensures
            r.0 == items_visit_spec(items@, key@, 0).0,
            r.1@ == items_visit_spec(items@, key@, 0).1,
            r.0.fits(items@.len()),
            r.1@ == turn_to_item(items@, key@, 0),
    {
        BasicItemsRun::visit(items, key, 0)
    }

    /// Takes the reply to the last action and gives the next state and action.
    pub fn advance(self, items: &Vec<Document>, key: &str, reply: bool) -> (r: (BasicItemsRun, BasicItemAction))
        requires
            self.fits(items@.len()),
        ensures
            r.0 == items_advance_spec(items@, key@, self, reply).0,
            r.1@ == items_advance_spec(items@, key@, self, reply).1,
            r.0.fits(items@.len()),
            match self {
                BasicItemsRun::AwaitingExistence { index } => if reply {
                    r.1@ == turn_to_item(items@, key@, index + 1)
                } else {
                    r.0 == (BasicItemsRun::AwaitingInsertion { index }) && r.1@ == (BasicItemActionView::Insert {
                        index,
                    })
                },
                BasicItemsRun::AwaitingInsertion { index } => r.1@ == turn_to_item(items@, key@, index + 1),
                _ => r.0 == self,
            },
    {
        let n = items.len();
        proof {
            lemma_items_step_law(items@, key@, self, reply);
        }
        assert(n == items@.len());
        match self {
            BasicItemsRun::AwaitingExistence { index } => {
                if reply {
                    BasicItemsRun::visit(items, key, index + 1)
                } else {
                    (BasicItemsRun::AwaitingInsertion { index }, BasicItemAction::Insert { index })
                }
            },
            BasicItemsRun::AwaitingInsertion { index } => BasicItemsRun::visit(items, key, index + 1),
            BasicItemsRun::Finished { total } => (self, BasicItemAction::Finish { total }),
            BasicItemsRun::Stopped { index } => (self, BasicItemAction::MissingId { index }),
        }
    }

    /// Whether the run is over.
    pub fn is_done(&self) -> (r: bool)
        ensures
            r == self.is_terminal(),
    {
        match self {
            BasicItemsRun::Finished { .. } => true,
            BasicItemsRun::Stopped { .. } => true,
            _ => false,
        }
    }
}

/// The state reached and the actions emitted when the replies are fed in order.
pub open spec fn items_replay(
    items: Seq<Document>,
    key: Seq<char>,
    s: BasicItemsRun,
    replies: Seq<bool>,
) -> (BasicItemsRun, Seq<BasicItemActionView>)
    decreases replies.len(),
{
    if replies.len() == 0 {
        (s, Seq::empty())
    } else {
        let next = items_advance_spec(items, key, s, replies[0]);
        let rest = items_replay(items, key, next.0, replies.drop_first());
        (rest.0, seq![next.1] + rest.1)
    }
}

/// All actions on a manage's basic items when the replies are fed in order:
/// `replies[k]` answers action `k`.
pub open spec fn items_trace(items: Seq<Document>, key: Seq<char>, replies: Seq<bool>) -> Seq<BasicItemActionView> {
    seq![items_visit_spec(items, key, 0).1] + items_replay(items, key, items_visit_spec(items, key, 0).0, replies).1
}

/// The item an action is about; for `Finish`, the number of items.
pub open spec fn action_index(a: BasicItemActionView) -> int {
    match a {
        BasicItemActionView::CheckExists { index, .. } => index as int,
        BasicItemActionView::Insert { index } => index as int,
        BasicItemActionView::Finish { total } => total as int,
        BasicItemActionView::MissingId { index } => index as int,
    }
}

/// The id of item `i`, as the check of its existence names it.
pub open spec fn item_id_check(items: Seq<Document>, key: Seq<char>, i: int) -> BasicItemActionView {
    BasicItemActionView::CheckExists { index: i as usize, id: document_str_fields(items[i])[key] }
}

/// The action that led to a state.
pub open spec fn items_emitted(items: Seq<Document>, key: Seq<char>, s: BasicItemsRun, a: BasicItemActionView) -> bool {
    match s {
        BasicItemsRun::AwaitingExistence { index } => a == item_id_check(items, key, index as int),
        BasicItemsRun::AwaitingInsertion { index } => a == (BasicItemActionView::Insert { index }),
        BasicItemsRun::Finished { total } => a == (BasicItemActionView::Finish { total }),
        BasicItemsRun::Stopped { index } => a == (BasicItemActionView::MissingId { index }),
    }
}

/// The replies that are still needed at most before the run is over.
pub open spec fn items_measure(s: BasicItemsRun, len: nat) -> int {
    match s {
        BasicItemsRun::AwaitingExistence { index } => 2 * (len - index),
        BasicItemsRun::AwaitingInsertion { index } => 2 * (len - index) - 1,
        _ => 0,
    }
}

proof fn lemma_items_step(items: Seq<Document>, key: Seq<char>, s: BasicItemsRun, reply: bool)
    requires
        s.fits(items.len()),
        items.len() <= usize::MAX,
    ensures
        ({
            let next = items_advance_spec(items, key, s, reply);
            &&& next.0.fits(items.len())
            &&& items_emitted(items, key, next.0, next.1)
            &&& !s.is_terminal() ==> items_measure(next.0, items.len()) < items_measure(s, items.len())
            &&& s.is_terminal() ==> next.0 == s
        }),
{
}

proof fn lemma_items_replay_len(items: Seq<Document>, key: Seq<char>, s: BasicItemsRun, replies: Seq<bool>)
    ensures
        items_replay(items, key, s, replies).1.len() == replies.len(),
    decreases replies.len(),
{
    if replies.len() > 0 {
        lemma_items_replay_len(items, key, items_advance_spec(items, key, s, replies[0]).0, replies.drop_first());
    }
}

proof fn lemma_items_replay_ends(items: Seq<Document>, key: Seq<char>, s: BasicItemsRun, replies: Seq<bool>)
    requires
        s.fits(items.len()),
        items.len() <= usize::MAX,
        replies.len() >= items_measure(s, items.len()),
    ensures
        items_replay(items, key, s, replies).0.is_terminal() || (replies.len() == 0 && !s.is_terminal()
            && items_measure(s, items.len()) == 0),
    decreases replies.len(),
{
    if replies.len() > 0 {
        lemma_items_step(items, key, s, replies[0]);
        let next = items_advance_spec(items, key, s, replies[0]);
        lemma_items_replay_ends(items, key, next.0, replies.drop_first());
    }
}

/// The work on `n` basic items is over after at most `2n` replies, whatever they are.
pub proof fn lemma_basic_items_end(items: Seq<Document>, key: Seq<char>, replies: Seq<bool>)
    requires
        items.len() <= usize::MAX,
        replies.len() >= 2 * items.len(),
    ensures
        items_replay(items, key, items_visit_spec(items, key, 0).0, replies).0.is_terminal(),
{
    let s0 = items_visit_spec(items, key, 0).0;
    lemma_items_replay_ends(items, key, s0, replies);
}


/// The action that turns to item `i`: the check of its id, `MissingId` when it
/// has no string id under `key`, or, once there is no item `i`, `Finish` with
/// the number of items.
pub open spec fn turn_to_item(items: Seq<Document>, key: Seq<char>, i: int) -> BasicItemActionView {
    if i < items.len() {
        if document_str_fields(items[i]).contains_key(key) {
            item_id_check(items, key, i)
        } else {
            BasicItemActionView::MissingId { index: i as usize }
        }
    } else {
        BasicItemActionView::Finish { total: items.len() as usize }
    }
}

/// One step on the basic items: an item whose id is absent is inserted next;
/// an item whose id exists, and an item just inserted (whether the insertion
/// succeeded or not), are followed by the turn to the next item; a finished
/// or stopped run stays as it is.
pub proof fn lemma_items_step_law(items: Seq<Document>, key: Seq<char>, s: BasicItemsRun, reply: bool)
    requires
        s.fits(items.len()),
        items.len() <= usize::MAX,
    ensures
        ({
            let next = items_advance_spec(items, key, s, reply);
            match s {
                BasicItemsRun::AwaitingExistence { index } => if reply {
                    next.1 == turn_to_item(items, key, index + 1)
                } else {
                    next.0 == (BasicItemsRun::AwaitingInsertion { index }) && next.1 == (BasicItemActionView::Insert {
                        index,
                    })
                },
                BasicItemsRun::AwaitingInsertion { index } => next.1 == turn_to_item(items, key, index + 1),
                _ => next.0 == s,
            }
        }),
{
}

proof fn lemma_items_chain(
    items: Seq<Document>,
    key: Seq<char>,
    s: BasicItemsRun,
    prev: BasicItemActionView,
    replies: Seq<bool>,
)
    requires
        s.fits(items.len()),
        items.len() <= usize::MAX,
        items_emitted(items, key, s, prev),
    ensures
        ({
            let t = seq![prev] + items_replay(items, key, s, replies).1;
            &&& t.len() == replies.len() + 1
            &&& forall|k: int|
                1 <= k < t.len() && (#[trigger] t[k]) is Insert ==> t[k - 1] == item_id_check(
                    items,
                    key,
                    action_index(t[k]),
                ) && !replies[k - 1]
            &&& forall|k: int|
                1 <= k < t.len() ==> action_index(t[k - 1]) <= action_index(#[trigger] t[k]) && (t[k
                    - 1] is Insert ==> action_index(t[k - 1]) < action_index(t[k]))
            &&& forall|k: int|
                1 <= k < t.len() ==> (t[k - 1] is CheckExists && !replies[k - 1] ==> #[trigger] t[k] == (
                BasicItemActionView::Insert { index: action_index(t[k - 1]) as usize }))
            &&& forall|k: int|
                1 <= k < t.len() ==> (t[k - 1] is Insert ==> #[trigger] t[k] == turn_to_item(
                    items,
                    key,
                    action_index(t[k - 1]) + 1,
                ))
        }),
    decreases replies.len(),
{
    lemma_items_replay_len(items, key, s, replies);
    if replies.len() > 0 {
        lemma_items_step(items, key, s, replies[0]);
        let next = items_advance_spec(items, key, s, replies[0]);
        lemma_items_chain(items, key, next.0, next.1, replies.drop_first());
        let rest = seq![next.1] + items_replay(items, key, next.0, replies.drop_first()).1;
        let t = seq![prev] + items_replay(items, key, s, replies).1;
        assert(t == seq![prev] + rest);
        assert forall|k: int| 1 <= k < t.len() && (#[trigger] t[k]) is Insert implies t[k - 1] == item_id_check(
            items,
            key,
            action_index(t[k]),
        ) && !replies[k - 1] by {
            if k >= 2 {
                assert(t[k] == rest[k - 1]);
                assert(t[k - 1] == rest[k - 2]);
                assert(replies.drop_first()[k - 2] == replies[k - 1]);
            }
        }
        assert forall|k: int| 1 <= k < t.len() implies action_index(t[k - 1]) <= action_index(#[trigger] t[k]) && (t[k
            - 1] is Insert ==> action_index(t[k - 1]) < action_index(t[k])) by {
            if k >= 2 {
                assert(t[k] == rest[k - 1]);
                assert(t[k - 1] == rest[k - 2]);
            }
        }
        lemma_items_step_law(items, key, s, replies[0]);
        assert forall|k: int| 1 <= k < t.len() implies (t[k - 1] is CheckExists && !replies[k - 1] ==> #[trigger] t[k]
            == (BasicItemActionView::Insert { index: action_index(t[k - 1]) as usize })) by {
            if k >= 2 {
                assert(t[k] == rest[k - 1]);
                assert(t[k - 1] == rest[k - 2]);
                assert(replies.drop_first()[k - 2] == replies[k - 1]);
            }
        }
        assert forall|k: int| 1 <= k < t.len() implies (t[k - 1] is Insert ==> #[trigger] t[k] == turn_to_item(
            items,
            key,
            action_index(t[k - 1]) + 1,
        )) by {
            if k >= 2 {
                assert(t[k] == rest[k - 1]);
                assert(t[k - 1] == rest[k - 2]);
            }
        }
    }
}

proof fn lemma_index_monotone(t: Seq<BasicItemActionView>, a: int, b: int)
    requires
        0 <= a <= b < t.len(),
        forall|k: int| 1 <= k < t.len() ==> action_index(t[k - 1]) <= action_index(#[trigger] t[k]),
    ensures
        action_index(t[a]) <= action_index(t[b]),
    decreases b - a,
{
    if a < b {
        lemma_index_monotone(t, a, b - 1);
        assert(action_index(t[b - 1]) <= action_index(t[b]));
    }
}

/// An item is inserted only right after the check of its id answered that no
/// such entity exists, and no item is inserted twice.
pub proof fn lemma_items_inserted_once_when_absent(items: Seq<Document>, key: Seq<char>, replies: Seq<bool>)
    requires
        items.len() <= usize::MAX,
    ensures
        forall|k: int|
            0 <= k < items_trace(items, key, replies).len() && (#[trigger] items_trace(items, key, replies)[k]) is Insert
                ==> k >= 1 && items_trace(items, key, replies)[k - 1] == item_id_check(
                items,
                key,
                action_index(items_trace(items, key, replies)[k]),
            ) && !replies[k - 1],
        forall|k1: int, k2: int|
            0 <= k1 < k2 < items_trace(items, key, replies).len() && (#[trigger] items_trace(items, key, replies)[k1]) is Insert
                && (#[trigger] items_trace(items, key, replies)[k2]) is Insert ==> action_index(
                items_trace(items, key, replies)[k1],
            ) < action_index(items_trace(items, key, replies)[k2]),
{
    let start = items_visit_spec(items, key, 0);
    lemma_items_chain(items, key, start.0, start.1, replies);
    let t = items_trace(items, key, replies);
    assert(!(t[0] is Insert));
    assert forall|k1: int, k2: int|
        0 <= k1 < k2 < t.len() && (#[trigger] t[k1]) is Insert && (#[trigger] t[k2]) is Insert implies action_index(
        t[k1],
    ) < action_index(t[k2]) by {
        assert(action_index(t[k1]) < action_index(t[k1 + 1]));
        lemma_index_monotone(t, k1 + 1, k2);
    }
}

/// Along the whole run, an item whose existence check answers that it is
/// absent is inserted at the next step, and after an insertion (whatever its
/// reply) the run turns to the next item: its check, `MissingId` when it has
/// no string id, or `Finish` when it was the last item.
pub proof fn lemma_items_trace_steps(items: Seq<Document>, key: Seq<char>, replies: Seq<bool>)
    requires
        items.len() <= usize::MAX,
    ensures
        forall|k: int|
            1 <= k < items_trace(items, key, replies).len() ==> (items_trace(items, key, replies)[k - 1] is CheckExists
                && !replies[k - 1] ==> #[trigger] items_trace(items, key, replies)[k] == (BasicItemActionView::Insert {
                index: action_index(items_trace(items, key, replies)[k - 1]) as usize,
            })),
        forall|k: int|
            1 <= k < items_trace(items, key, replies).len() ==> (items_trace(items, key, replies)[k - 1] is Insert
                ==> #[trigger] items_trace(items, key, replies)[k] == turn_to_item(
                items,
                key,
                action_index(items_trace(items, key, replies)[k - 1]) + 1,
            )),
        items_trace(items, key, replies)[0] == turn_to_item(items, key, 0),
{
    let start = items_visit_spec(items, key, 0);
    lemma_items_chain(items, key, start.0, start.1, replies);
}

} // verus!
