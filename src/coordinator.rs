use vstd::prelude::*;

use crate::pipeline::TenantContext;

verus! {

/// How one embed-and-upsert run ended.
#[derive(Debug, Clone, Copy, PartialEq, Eq, Structural)]
pub enum Outcome {
    Stored,
    EmbeddingFailed,
    UpsertFailed,
}

impl Outcome {
    /// Whether the points were stored.
    pub fn succeeded(&self) -> (r: bool)
        ensures
            r == (*self == Outcome::Stored),
    {
        match self {
            Outcome::Stored => true,
            _ => false,
        }
    }
}

/// Where a run stands.
#[derive(Debug, Clone, Copy, PartialEq, Eq, Structural)]
pub enum Phase {
    /// Waiting for the embedding collaborator.
    Embedding,
    /// Waiting for the vector store's bulk upsert.
    Upserting,
    Finished(Outcome),
}

/// What a collaborator reported.
#[derive(Debug, Clone, Copy, PartialEq, Eq, Structural)]
pub enum Event {
    /// The embedding collaborator returned this many points for the batch.
    Embedded(usize),
    EmbeddingFailed,
    /// The bulk upsert completed with the store's success signal.
    Upserted(bool),
    UpsertFailed,
}

/// What the caller does next.
#[derive(Debug, PartialEq)]
pub enum Action {
    /// Upsert all the points the embedding returned into `collection`.
    Upsert { collection: String, points: usize },
    /// Report the outcome; nothing else is called.
    Finish(Outcome),
    /// The event does not belong to this phase: nothing to do.
    Ignore,
}

/// The phase after `event` in phase `p`.
pub open spec fn next_phase(p: Phase, event: Event) -> Phase {
    match (p, event) {
        (Phase::Embedding, Event::Embedded(_)) => Phase::Upserting,
        (Phase::Embedding, Event::EmbeddingFailed) => Phase::Finished(Outcome::EmbeddingFailed),
        (Phase::Upserting, Event::Upserted(true)) => Phase::Finished(Outcome::Stored),
        (Phase::Upserting, Event::Upserted(false)) => Phase::Finished(Outcome::UpsertFailed),
        (Phase::Upserting, Event::UpsertFailed) => Phase::Finished(Outcome::UpsertFailed),
        _ => p,
    }
}

/// Whether `event` in phase `p` leads to an upsert call.
pub open spec fn upserts(p: Phase, event: Event) -> bool {
    p == Phase::Embedding && event is Embedded
}

/// The phase after a run of events.
pub open spec fn run(p: Phase, events: Seq<Event>) -> Phase
    decreases events.len(),
{
    if events.len() == 0 {
        p
    } else {
        next_phase(run(p, events.drop_last()), events.last())
    }
}

/// The embed-and-upsert coordinator for one batch: the embedding collaborator
/// is called first, and the vector store only with what it returned.
#[derive(Debug)]
pub struct Coordinator {
    phase: Phase,
    collection: String,
}

impl Coordinator {
    pub closed spec fn spec_phase(&self) -> Phase {
        self.phase
    }

    pub closed spec fn spec_collection(&self) -> Seq<char> {
        self.collection@
    }

    /// A run for a batch of `tenant`, waiting for the embedding; its points
    /// go to the tenant's collection.
    pub fn start(tenant: &TenantContext) -> (r: Coordinator)
        ensures
            r.spec_phase() == Phase::Embedding,
            r.spec_collection() == tenant.team_id@,
    {
        Coordinator { phase: Phase::Embedding, collection: tenant.team_id.clone() }
    }

    pub fn phase(&self) -> (r: Phase)
        ensures
            r == self.spec_phase(),
    {
        self.phase
    }

    /// Takes in what a collaborator reported and says what to do next.
    pub fn step(&mut self, event: Event) -> (a: Action)
        ensures
            final(self).spec_phase() == next_phase(old(self).spec_phase(), event),
            final(self).spec_collection() == old(self).spec_collection(),
            upserts(old(self).spec_phase(), event) ==> (a matches Action::Upsert { collection, points }
                && collection@ == old(self).spec_collection() && event == Event::Embedded(points)),
            !upserts(old(self).spec_phase(), event) ==> !(a is Upsert),
            (final(self).spec_phase() is Finished && !(old(self).spec_phase() is Finished)) ==> a
                == Action::Finish(final(self).spec_phase()->Finished_0),
            (final(self).spec_phase() == old(self).spec_phase()) ==> a == Action::Ignore,
    {
        match (self.phase, event) {
            (Phase::Embedding, Event::Embedded(n)) => {
                self.phase = Phase::Upserting;
                Action::Upsert { collection: self.collection.clone(), points: n }
            },
            (Phase::Embedding, Event::EmbeddingFailed) => {
                self.phase = Phase::Finished(Outcome::EmbeddingFailed);
                Action::Finish(Outcome::EmbeddingFailed)
            },
            (Phase::Upserting, Event::Upserted(ok)) => {
                let outcome = if ok {
                    Outcome::Stored
                } else {
                    Outcome::UpsertFailed
                };
                self.phase = Phase::Finished(outcome);
                Action::Finish(outcome)
            },
            (Phase::Upserting, Event::UpsertFailed) => {
                self.phase = Phase::Finished(Outcome::UpsertFailed);
                Action::Finish(Outcome::UpsertFailed)
            },
            _ => Action::Ignore,
        }
    }
}

/// Once the embedding has failed, the run is finished with that failure and
/// no later event leads to an upsert.
pub proof fn lemma_no_upsert_after_embedding_failure(events: Seq<Event>)
    requires
        events.len() >= 1,
        events[0] == Event::EmbeddingFailed,
    ensures
        forall|k: int|
            1 <= k <= events.len() ==> #[trigger] run(Phase::Embedding, events.take(k))
                == Phase::Finished(Outcome::EmbeddingFailed),
        forall|k: int|
            0 <= k < events.len() ==> !upserts(
                #[trigger] run(Phase::Embedding, events.take(k)),
                events[k],
            ),
    decreases events.len(),
{
    if events.len() == 1 {
        assert(events.take(1).drop_last() =~= Seq::<Event>::empty());
        assert(events.take(1).last() == events[0]);
        assert(run(Phase::Embedding, Seq::<Event>::empty()) == Phase::Embedding);
        assert(run(Phase::Embedding, events.take(1)) == Phase::Finished(Outcome::EmbeddingFailed));
        assert(events.take(0) =~= Seq::<Event>::empty());
    } else {
        let p = events.drop_last();
        lemma_no_upsert_after_embedding_failure(p);
        assert forall|k: int| 1 <= k <= events.len() implies #[trigger] run(
            Phase::Embedding,
            events.take(k),
        ) == Phase::Finished(Outcome::EmbeddingFailed) by {
            if k < events.len() {
                assert(events.take(k) =~= p.take(k));
            } else {
                assert(events.take(k).drop_last() =~= p.take(k - 1));
                assert(run(Phase::Embedding, p.take(k - 1)) == Phase::Finished(
                    Outcome::EmbeddingFailed,
                ));
            }
        }
        assert forall|k: int| 0 <= k < events.len() implies !upserts(
            #[trigger] run(Phase::Embedding, events.take(k)),
            events[k],
        ) by {
            if k == 0 {
                assert(events.take(0) =~= Seq::<Event>::empty());
            } else if k < p.len() {
                assert(events.take(k) =~= p.take(k));
            }
        }
    }
}

} // verus!
