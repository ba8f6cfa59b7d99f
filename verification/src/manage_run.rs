use bson::Document;
use vstd::prelude::*;

use crate::manages::{collection_plan_fits, CollectionPlan, ManageEntity, ManagePlan, ManageSettings};

verus! {

/// How the work on one manage ended.
#[derive(PartialEq, Eq, Structural, Debug, Clone, Copy)]
pub enum ManageOutcome {
    /// A manage entity with this id existed already: nothing was done.
    AlreadyExists,
    /// The entity was inserted; the collection of manage entities exists already.
    Reserved,
    /// The entity was inserted; the time-series configuration was incomplete.
    InvalidTimeSeries,
    /// The entity was inserted and the time-series collection created.
    TimeSeriesCreated,
    /// The entity was inserted, the collection created, and its indexes
    /// created or not as the flag says.
    CollectionCreated { indexes_created: bool },
}

/// The next thing to do for a manage. Every action but `Finish` and `Abort`
/// is answered with one yes/no reply: whether the entity exists, whether the
/// insertion, creation or indexing succeeded.
#[derive(Debug, PartialEq)]
pub enum ManageAction {
    CheckExists { manage_id: String },
    InsertEntity { entity: ManageEntity },
    CreateTimeSeriesCollection { name: String, meta_field: String, expire_after_secs: u64 },
    CreateCollection { name: String },
    CreateIndexes { collection: String, indexes: Vec<Document> },
    Finish { outcome: ManageOutcome },
    /// Creating the collection failed: the run cannot go on.
    Abort { collection: String },
}

/// Where the work on one manage stands.
#[derive(Debug, PartialEq)]
pub enum ManageRun {
    CheckingExistence { plan: ManagePlan },
    Inserting { id: String, collection: CollectionPlan },
    CreatingTimeSeries { id: String },
    CreatingCollection { id: String, indexes: Vec<Document> },
    CreatingIndexes { id: String },
    Finished { outcome: ManageOutcome },
    Aborted { id: String },
}

/// The state and first action of the work on a planned manage.
pub open spec fn manage_start_spec(plan: ManagePlan) -> (ManageRun, ManageAction) {
    (
        ManageRun::CheckingExistence { plan },
        ManageAction::CheckExists { manage_id: plan.entity.id },
    )
}

/// One step of the work on a manage: the reply to the last action gives the
/// next state and action.
pub open spec fn manage_advance_spec(s: ManageRun, reply: bool) -> (ManageRun, ManageAction) {
    match s {
        ManageRun::CheckingExistence { plan } => {
            if reply {
                (
                    ManageRun::Finished { outcome: ManageOutcome::AlreadyExists },
                    ManageAction::Finish { outcome: ManageOutcome::AlreadyExists },
                )
            } else {
                (
                    ManageRun::Inserting { id: plan.entity.id, collection: plan.collection },
                    ManageAction::InsertEntity { entity: plan.entity },
                )
            }
        },
        ManageRun::Inserting { id, collection } => match collection {
            CollectionPlan::Reserved => (
                ManageRun::Finished { outcome: ManageOutcome::Reserved },
                ManageAction::Finish { outcome: ManageOutcome::Reserved },
            ),
            CollectionPlan::InvalidTimeSeries => (
                ManageRun::Finished { outcome: ManageOutcome::InvalidTimeSeries },
                ManageAction::Finish { outcome: ManageOutcome::InvalidTimeSeries },
            ),
            CollectionPlan::TimeSeries { meta_field, expire_after_secs } => (
                ManageRun::CreatingTimeSeries { id },
                ManageAction::CreateTimeSeriesCollection { name: id, meta_field, expire_after_secs },
            ),
            CollectionPlan::Plain { indexes } => (
                ManageRun::CreatingCollection { id, indexes },
                ManageAction::CreateCollection { name: id },
            ),
        },
        ManageRun::CreatingTimeSeries { id } => {
            if reply {
                (
                    ManageRun::Finished { outcome: ManageOutcome::TimeSeriesCreated },
                    ManageAction::Finish { outcome: ManageOutcome::TimeSeriesCreated },
                )
            } else {
                (ManageRun::Aborted { id }, ManageAction::Abort { collection: id })
            }
        },
        ManageRun::CreatingCollection { id, indexes } => {
            if reply {
                (ManageRun::CreatingIndexes { id }, ManageAction::CreateIndexes { collection: id, indexes })
            } else {
                (ManageRun::Aborted { id }, ManageAction::Abort { collection: id })
            }
        },
        ManageRun::CreatingIndexes { id } => (
            ManageRun::Finished { outcome: ManageOutcome::CollectionCreated { indexes_created: reply } },
            ManageAction::Finish { outcome: ManageOutcome::CollectionCreated { indexes_created: reply } },
        ),
        ManageRun::Finished { outcome } => (ManageRun::Finished { outcome }, ManageAction::Finish { outcome }),
        ManageRun::Aborted { id } => (ManageRun::Aborted { id }, ManageAction::Abort { collection: id }),
    }
}

impl ManageRun {
    /// Whether the work on the manage is over.
    pub open spec fn is_terminal(self) -> bool {
        self is Finished || self is Aborted
    }

    /// Starts the work on a planned manage: first ask whether its entity exists.
    pub fn start(plan: ManagePlan) -> (r: (ManageRun, ManageAction))
        ensures
            r == manage_start_spec(plan),
    {
        let manage_id = plan.entity.id.clone();
        (ManageRun::CheckingExistence { plan }, ManageAction::CheckExists { manage_id })
    }

    /// Takes the reply to the last action and gives the next state and action:
    /// an existing entity ends the work; otherwise the entity is inserted
    /// (whether that succeeds or not), then the planned collection is created;
    /// a failed creation aborts; an ordinary collection is then indexed.
    /// Finished and aborted states stay as they are.
    pub fn advance(self, reply: bool) -> (r: (ManageRun, ManageAction))
        ensures
            r == manage_advance_spec(self, reply),
    {
        match self {
            ManageRun::CheckingExistence { plan } => {
                if reply {
                    (
                        ManageRun::Finished { outcome: ManageOutcome::AlreadyExists },
                        ManageAction::Finish { outcome: ManageOutcome::AlreadyExists },
                    )
                } else {
                    let ManagePlan { entity, collection } = plan;
                    let id = entity.id.clone();
                    (ManageRun::Inserting { id, collection }, ManageAction::InsertEntity { entity })
                }
            },
            ManageRun::Inserting { id, collection } => match collection {
                CollectionPlan::Reserved => (
                    ManageRun::Finished { outcome: ManageOutcome::Reserved },
                    ManageAction::Finish { outcome: ManageOutcome::Reserved },
                ),
                CollectionPlan::InvalidTimeSeries => (
                    ManageRun::Finished { outcome: ManageOutcome::InvalidTimeSeries },
                    ManageAction::Finish { outcome: ManageOutcome::InvalidTimeSeries },
                ),
                CollectionPlan::TimeSeries { meta_field, expire_after_secs } => {
                    let name = id.clone();
                    (
                        ManageRun::CreatingTimeSeries { id },
                        ManageAction::CreateTimeSeriesCollection { name, meta_field, expire_after_secs },
                    )
                },
                CollectionPlan::Plain { indexes } => {
                    let name = id.clone();
                    (ManageRun::CreatingCollection { id, indexes }, ManageAction::CreateCollection { name })
                },
            },
            ManageRun::CreatingTimeSeries { id } => {
                if reply {
                    (
                        ManageRun::Finished { outcome: ManageOutcome::TimeSeriesCreated },
                        ManageAction::Finish { outcome: ManageOutcome::TimeSeriesCreated },
                    )
                } else {
                    let collection = id.clone();
                    (ManageRun::Aborted { id }, ManageAction::Abort { collection })
                }
            },
            ManageRun::CreatingCollection { id, indexes } => {
                if reply {
                    let collection = id.clone();
                    (ManageRun::CreatingIndexes { id }, ManageAction::CreateIndexes { collection, indexes })
                } else {
                    let collection = id.clone();
                    (ManageRun::Aborted { id }, ManageAction::Abort { collection })
                }
            },
            ManageRun::CreatingIndexes { id } => (
                ManageRun::Finished { outcome: ManageOutcome::CollectionCreated { indexes_created: reply } },
                ManageAction::Finish { outcome: ManageOutcome::CollectionCreated { indexes_created: reply } },
            ),
            ManageRun::Finished { outcome } => (ManageRun::Finished { outcome }, ManageAction::Finish { outcome }),
            ManageRun::Aborted { id } => {
                let collection = id.clone();
                (ManageRun::Aborted { id }, ManageAction::Abort { collection })
            },
        }
    }

    /// Whether the work on the manage is over.
    pub fn is_done(&self) -> (r: bool)
        ensures
            r == self.is_terminal(),
    {
        match self {
            ManageRun::Finished { .. } => true,
            ManageRun::Aborted { .. } => true,
            _ => false,
        }
    }
}

/// The state reached and the actions emitted when the replies are fed in
/// order to the work on a manage.
pub open spec fn manage_replay(s: ManageRun, replies: Seq<bool>) -> (ManageRun, Seq<ManageAction>)
    decreases replies.len(),
{
    if replies.len() == 0 {
        (s, Seq::empty())
    } else {
        let next = manage_advance_spec(s, replies[0]);
        let rest = manage_replay(next.0, replies.drop_first());
        (rest.0, seq![next.1] + rest.1)
    }
}

/// All actions of the work on a planned manage, when the replies are fed in
/// order: `replies[k]` answers action `k`.
pub open spec fn manage_trace(plan: ManagePlan, replies: Seq<bool>) -> Seq<ManageAction> {
    seq![manage_start_spec(plan).1] + manage_replay(manage_start_spec(plan).0, replies).1
}

/// Whether an action creates a collection or its indexes.
pub open spec fn creates_collection(a: ManageAction) -> bool {
    a is CreateCollection || a is CreateTimeSeriesCollection || a is CreateIndexes
}

proof fn lemma_replay_len(s: ManageRun, replies: Seq<bool>)
    ensures
        manage_replay(s, replies).1.len() == replies.len(),
    decreases replies.len(),
{
    if replies.len() > 0 {
        lemma_replay_len(manage_advance_spec(s, replies[0]).0, replies.drop_first());
    }
}

proof fn lemma_replay_terminal(s: ManageRun, replies: Seq<bool>)
    requires
        s.is_terminal(),
    ensures
        manage_replay(s, replies).0 == s,
        manage_replay(s, replies).1.len() == replies.len(),
        forall|k: int| 0 <= k < replies.len() ==> #[trigger] manage_replay(s, replies).1[k] == manage_advance_spec(s, true).1,
    decreases replies.len(),
{
    if replies.len() > 0 {
        lemma_replay_terminal(s, replies.drop_first());
        let rest = manage_replay(s, replies.drop_first()).1;
        let all = manage_replay(s, replies).1;
        assert(all == seq![manage_advance_spec(s, true).1] + rest);
        assert forall|k: int| 0 <= k < replies.len() implies #[trigger] all[k] == manage_advance_spec(s, true).1 by {
            if k > 0 {
                assert(all[k] == rest[k - 1]);
            }
        }
    }
}

/// Positions 1.. of a trace from a state are the actions of the replay that
/// follows the first reply.
proof fn lemma_replay_step(s: ManageRun, replies: Seq<bool>)
    requires
        replies.len() > 0,
    ensures
        manage_replay(s, replies).0 == manage_replay(manage_advance_spec(s, replies[0]).0, replies.drop_first()).0,
        manage_replay(s, replies).1[0] == manage_advance_spec(s, replies[0]).1,
        forall|k: int|
            1 <= k < replies.len() ==> #[trigger] manage_replay(s, replies).1[k] == manage_replay(
                manage_advance_spec(s, replies[0]).0,
                replies.drop_first(),
            ).1[k - 1],
{
    lemma_replay_len(manage_advance_spec(s, replies[0]).0, replies.drop_first());
}

/// The work on a manage is over after at most four replies, whatever they are.
pub proof fn lemma_manage_work_ends(plan: ManagePlan, replies: Seq<bool>)
    requires
        replies.len() >= 4,
    ensures
        manage_replay(manage_start_spec(plan).0, replies).0.is_terminal(),
{
    let s0 = manage_start_spec(plan).0;
    let r1 = replies.drop_first();
    let r2 = r1.drop_first();
    let r3 = r2.drop_first();
    let r4 = r3.drop_first();
    let s1 = manage_advance_spec(s0, replies[0]).0;
    let s2 = manage_advance_spec(s1, r1[0]).0;
    let s3 = manage_advance_spec(s2, r2[0]).0;
    let s4 = manage_advance_spec(s3, r3[0]).0;
    assert(s4.is_terminal());
    lemma_replay_terminal(s4, r4);
    lemma_replay_step(s3, r3);
    lemma_replay_step(s2, r2);
    lemma_replay_step(s1, r1);
    lemma_replay_step(s0, replies);
}

/// Every action of the work on a manage, position by position: first the
/// existence check of the manage's id; an existing entity ends the work; else
/// the planned entity is inserted and, whatever the insertion answered, the
/// work ends for the reserved manage and for an incomplete time-series
/// configuration, or creates the planned collection under the manage's id;
/// a failed creation aborts; a created time-series collection ends the work;
/// a created ordinary collection gets exactly the planned indexes, and the
/// work ends saying whether they were created.
pub proof fn lemma_manage_actions(plan: ManagePlan, replies: Seq<bool>)
    ensures
        ({
            let t = manage_trace(plan, replies);
            let n = replies.len();
            let id = plan.entity.id;
            &&& t.len() == n + 1
            &&& t[0] == (ManageAction::CheckExists { manage_id: id })
            &&& (n >= 1 && replies[0]) ==> forall|k: int|
                1 <= k <= n ==> #[trigger] t[k] == (ManageAction::Finish { outcome: ManageOutcome::AlreadyExists })
            &&& (n >= 1 && !replies[0]) ==> t[1] == (ManageAction::InsertEntity { entity: plan.entity })
            &&& (n >= 2 && !replies[0] && plan.collection is Reserved) ==> forall|k: int|
                2 <= k <= n ==> #[trigger] t[k] == (ManageAction::Finish { outcome: ManageOutcome::Reserved })
            &&& (n >= 2 && !replies[0] && plan.collection is InvalidTimeSeries) ==> forall|k: int|
                2 <= k <= n ==> #[trigger] t[k] == (ManageAction::Finish { outcome: ManageOutcome::InvalidTimeSeries })
            &&& (n >= 2 && !replies[0] && plan.collection is TimeSeries) ==> t[2] == (
            ManageAction::CreateTimeSeriesCollection {
                name: id,
                meta_field: plan.collection->meta_field,
                expire_after_secs: plan.collection->expire_after_secs,
            })
            &&& (n >= 3 && !replies[0] && plan.collection is TimeSeries && replies[2]) ==> forall|k: int|
                3 <= k <= n ==> #[trigger] t[k] == (ManageAction::Finish { outcome: ManageOutcome::TimeSeriesCreated })
            &&& (n >= 3 && !replies[0] && plan.collection is TimeSeries && !replies[2]) ==> forall|k: int|
                3 <= k <= n ==> #[trigger] t[k] == (ManageAction::Abort { collection: id })
            &&& (n >= 2 && !replies[0] && plan.collection is Plain) ==> t[2] == (ManageAction::CreateCollection { name: id })
            &&& (n >= 3 && !replies[0] && plan.collection is Plain && !replies[2]) ==> forall|k: int|
                3 <= k <= n ==> #[trigger] t[k] == (ManageAction::Abort { collection: id })
            &&& (n >= 3 && !replies[0] && plan.collection is Plain && replies[2]) ==> t[3] == (
            ManageAction::CreateIndexes { collection: id, indexes: plan.collection->indexes })
            &&& (n >= 4 && !replies[0] && plan.collection is Plain && replies[2]) ==> forall|k: int|
                4 <= k <= n ==> #[trigger] t[k] == (ManageAction::Finish {
                    outcome: ManageOutcome::CollectionCreated { indexes_created: replies[3] },
                })
        }),
{
    let s0 = manage_start_spec(plan).0;
    let n = replies.len();
    let t = manage_trace(plan, replies);
    lemma_replay_len(s0, replies);
    assert forall|k: int| 1 <= k <= n implies #[trigger] t[k] == manage_replay(s0, replies).1[k - 1] by {}
    if n >= 1 {
        lemma_replay_step(s0, replies);
        let r1 = replies.drop_first();
        let s1 = manage_advance_spec(s0, replies[0]).0;
        if s1.is_terminal() {
            lemma_replay_terminal(s1, r1);
        } else if n >= 2 {
            lemma_replay_step(s1, r1);
            let r2 = r1.drop_first();
            let s2 = manage_advance_spec(s1, r1[0]).0;
            assert(r1[0] == replies[1]);
            if s2.is_terminal() {
                lemma_replay_terminal(s2, r2);
            } else if n >= 3 {
                lemma_replay_step(s2, r2);
                let r3 = r2.drop_first();
                let s3 = manage_advance_spec(s2, r2[0]).0;
                assert(r2[0] == replies[2]);
                if s3.is_terminal() {
                    lemma_replay_terminal(s3, r3);
                } else if n >= 4 {
                    lemma_replay_step(s3, r3);
                    let r4 = r3.drop_first();
                    let s4 = manage_advance_spec(s3, r3[0]).0;
                    assert(r3[0] == replies[3]);
                    lemma_replay_terminal(s4, r4);
                }
            }
        }
    }
}

/// A manage whose entity exists already is left alone: after the existence
/// check, the only action is to finish with `AlreadyExists`.
pub proof fn lemma_existing_manage_left_alone(plan: ManagePlan, replies: Seq<bool>)
    requires
        replies.len() > 0,
        replies[0],
    ensures
        forall|k: int|
            1 <= k < manage_trace(plan, replies).len() ==> #[trigger] manage_trace(plan, replies)[k] == (
            ManageAction::Finish { outcome: ManageOutcome::AlreadyExists }),
{
    lemma_manage_actions(plan, replies);
}

/// The entity is inserted, and collections and indexes created, only for a
/// manage whose entity did not exist; they carry the planned entity,
/// the manage's id as collection name and the planned settings, and never
/// concern the collection of manage entities itself.
pub proof fn lemma_only_new_manages_get_collections(plan: ManagePlan, replies: Seq<bool>)
    ensures
        forall|k: int|
            0 <= k < manage_trace(plan, replies).len() && (creates_collection(
                #[trigger] manage_trace(plan, replies)[k],
            ) || manage_trace(plan, replies)[k] is InsertEntity) ==> replies.len() > 0 && !replies[0],
        forall|k: int|
            0 <= k < manage_trace(plan, replies).len() && #[trigger] manage_trace(plan, replies)[k] is InsertEntity
                ==> manage_trace(plan, replies)[k]->entity == plan.entity,
        forall|k: int|
            0 <= k < manage_trace(plan, replies).len() && #[trigger] manage_trace(plan, replies)[k] is CreateCollection
                ==> plan.collection is Plain && manage_trace(plan, replies)[k]->CreateCollection_name == plan.entity.id,
        forall|k: int|
            0 <= k < manage_trace(plan, replies).len() && #[trigger] manage_trace(
                plan,
                replies,
            )[k] is CreateTimeSeriesCollection ==> plan.collection is TimeSeries && manage_trace(plan, replies)[k]
                == (ManageAction::CreateTimeSeriesCollection {
                name: plan.entity.id,
                meta_field: plan.collection->meta_field,
                expire_after_secs: plan.collection->expire_after_secs,
            }),
        forall|k: int|
            0 <= k < manage_trace(plan, replies).len() && #[trigger] manage_trace(plan, replies)[k] is CreateIndexes
                ==> plan.collection is Plain && manage_trace(plan, replies)[k] == (ManageAction::CreateIndexes {
                collection: plan.entity.id,
                indexes: plan.collection->indexes,
            }),
{
    lemma_manage_actions(plan, replies);
    let t = manage_trace(plan, replies);
    assert forall|k: int| 0 <= k < t.len() && (creates_collection(#[trigger] t[k]) || t[k] is InsertEntity) implies replies.len() > 0 && !replies[0] by {
        if k >= 1 && replies[0] {
            assert(t[k] == (ManageAction::Finish { outcome: ManageOutcome::AlreadyExists }));
        }
    }
    assert forall|k: int| 0 <= k < t.len() && #[trigger] t[k] is InsertEntity implies t[k]->entity == plan.entity by {
        if k >= 2 && !replies[0] {
            match plan.collection {
                CollectionPlan::Plain { .. } => {
                    if replies[2] {
                        if k >= 4 {
                            assert(t[k] is Finish);
                        }
                    } else {
                        assert(t[k] is Abort);
                    }
                },
                CollectionPlan::TimeSeries { .. } => {
                    if k >= 3 {
                        if replies[2] {
                            assert(t[k] is Finish);
                        } else {
                            assert(t[k] is Abort);
                        }
                    }
                },
                _ => {},
            }
        }
    }
}

/// Indexes are created only right after the collection was created, and
/// only when that creation succeeded.
pub proof fn lemma_indexes_follow_created_collection(plan: ManagePlan, replies: Seq<bool>)
    ensures
        forall|k: int|
            0 <= k < manage_trace(plan, replies).len() && #[trigger] manage_trace(plan, replies)[k] is CreateIndexes
                ==> k >= 1 && manage_trace(plan, replies)[k - 1] is CreateCollection && replies[k - 1],
{
    lemma_manage_actions(plan, replies);
}

/// The work aborts only after a collection creation that failed.
pub proof fn lemma_abort_follows_failed_creation(plan: ManagePlan, replies: Seq<bool>)
    ensures
        forall|k: int|
            0 <= k < manage_trace(plan, replies).len() && #[trigger] manage_trace(plan, replies)[k] is Abort
                ==> k >= 3 && (manage_trace(plan, replies)[2] is CreateCollection || manage_trace(
                plan,
                replies,
            )[2] is CreateTimeSeriesCollection) && !replies[2],
{
    lemma_manage_actions(plan, replies);
}

/// The work on the definition of the manage that holds the manage entities
/// never creates a collection or indexes: that collection exists before
/// any manage is planned.
pub proof fn lemma_manages_collection_not_recreated(
    plan: ManagePlan,
    time_series: Option<Document>,
    indexes: Vec<Document>,
    settings: ManageSettings,
    replies: Seq<bool>,
)
    requires
        collection_plan_fits(plan.collection, plan.entity.id@, time_series, indexes, settings),
        plan.entity.id@ == settings.manages_manage_id@,
    ensures
        forall|k: int|
            0 <= k < manage_trace(plan, replies).len() ==> !creates_collection(
                #[trigger] manage_trace(plan, replies)[k],
            ),
{
    lemma_only_new_manages_get_collections(plan, replies);
}

} // verus!
