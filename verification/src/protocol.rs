//! What happens to one subsystem as commands claim it, work on it, finish and
//! give way, and what holds however these steps fall.
//!
//! Each claim is known by the sender on which it listens for its recall: the
//! one that it registers with the subsystem.

use crate::priority::Priority;
use crate::referred::MaybeReferred;
use tokio::sync::oneshot::Sender;
use vstd::prelude::*;

verus! {

/// How far a claim that was let through has come.
#[verifier::reject_recursive_types(T)]
pub enum Stage<T> {
    /// It is registered and waits for the claim known as `from` to hand the
    /// subsystem over.
    Awaiting { from: Sender<Sender<T>> },
    /// It has the subsystem, in this state, to itself.
    Holding { payload: T },
    /// It has let the subsystem go: put it back or handed it over.
    Released,
}

/// One subsystem together with every claim that was let through so far.
#[verifier::reject_recursive_types(T)]
pub struct Slot<T> {
    /// The holder state, as the guard protects it.
    pub holder: MaybeReferred<T>,
    /// The stage of each claim.
    pub claims: Map<Sender<Sender<T>>, Stage<T>>,
}

/// One thing that happens to a subsystem.
#[verifier::reject_recursive_types(T)]
pub enum Step<T> {
    /// A command at `priority` claims the subsystem and listens on the other
    /// end of `take_back`.
    Claim { priority: Priority, take_back: Sender<Sender<T>> },
    /// The command that has the subsystem changes it to `payload`.
    Work { who: Sender<Sender<T>>, payload: T },
    /// The command that has the subsystem ran to its end and puts it back.
    Finish { who: Sender<Sender<T>> },
    /// The command that has the subsystem is recalled and hands it to the
    /// claim that waits for it.
    Yield { who: Sender<Sender<T>>, to: Sender<Sender<T>> },
}

impl<T> Slot<T> {
    /// A subsystem that was just wrapped: at rest, with no claims.
    pub open spec fn start(payload: T) -> Self {
        Slot { holder: MaybeReferred::Owned(payload), claims: Map::empty() }
    }

    /// Whether the claim `who` has the subsystem to itself.
    pub open spec fn holds(self, who: Sender<Sender<T>>) -> bool {
        self.claims.dom().contains(who) && self.claims[who] is Holding
    }

    /// Whether `step` can happen now. A claim brings a channel that no
    /// earlier claim brought; work and finishing are for the command that has
    /// the subsystem; a command gives way only to the claim that asked it.
    pub open spec fn allows(self, step: Step<T>) -> bool {
        match step {
            Step::Claim { priority, take_back } => !self.claims.dom().contains(take_back),
            Step::Work { who, payload } => self.holds(who),
            Step::Finish { who } => self.holds(who),
            Step::Yield { who, to } => {
                &&& self.holds(who)
                &&& self.claims.dom().contains(to)
                &&& self.claims[to] == Stage::<T>::Awaiting { from: who }
            },
        }
    }

    /// The subsystem and its claims once `step` has happened.
    pub open spec fn after(self, step: Step<T>) -> Self {
        match step {
            Step::Claim { priority, take_back } => {
                if self.holder.admits(priority) {
                    Slot {
                        holder: self.holder.after_claim(priority, take_back),
                        claims: self.claims.insert(
                            take_back,
                            match self.holder {
                                MaybeReferred::Owned(payload) => Stage::Holding { payload },
                                MaybeReferred::Referred(_, taker) => Stage::Awaiting {
                                    from: taker,
                                },
                            },
                        ),
                    }
                } else {
                    self
                }
            },
            Step::Work { who, payload } => Slot {
                holder: self.holder,
                claims: self.claims.insert(who, Stage::Holding { payload }),
            },
            Step::Finish { who } => Slot {
                holder: MaybeReferred::Owned(self.claims[who]->payload),
                claims: self.claims.insert(who, Stage::Released),
            },
            Step::Yield { who, to } => Slot {
                holder: self.holder,
                claims: self.claims.insert(who, Stage::Released).insert(
                    to,
                    Stage::Holding { payload: self.claims[who]->payload },
                ),
            },
        }
    }

    /// The subsystem is in exactly one place: at rest in its slot, with no
    /// claim holding it, or out with exactly one claim.
    pub open spec fn sound(self) -> bool {
        match self.holder {
            MaybeReferred::Owned(_) => forall|c: Sender<Sender<T>>| !self.holds(c),
            MaybeReferred::Referred(_, _) => exists|h: Sender<Sender<T>>|
                self.holds(h) && forall|c: Sender<Sender<T>>| self.holds(c) ==> c == h,
        }
    }

    /// Whether the steps can happen one after the other, starting now.
    pub open spec fn allows_all(self, steps: Seq<Step<T>>) -> bool
        decreases steps.len(),
    {
        if steps.len() == 0 {
            true
        } else {
            self.allows(steps[0]) && self.after(steps[0]).allows_all(steps.drop_first())
        }
    }

    /// The subsystem and its claims once all the steps have happened.
    pub open spec fn after_all(self, steps: Seq<Step<T>>) -> Self
        decreases steps.len(),
    {
        if steps.len() == 0 {
            self
        } else {
            self.after(steps[0]).after_all(steps.drop_first())
        }
    }
}

/// No step moves, copies or loses the subsystem in a way that would leave it
/// in two places or in none.
pub proof fn lemma_step_keeps_sound<T>(slot: Slot<T>, step: Step<T>)
    requires
        slot.sound(),
        slot.allows(step),
    ensures
        slot.after(step).sound(),
{
    let next = slot.after(step);
    match step {
        Step::Claim { priority, take_back } => {
            if slot.holder.admits(priority) {
                match slot.holder {
                    MaybeReferred::Owned(_) => {
                        assert(next.holds(take_back));
                        assert forall|c: Sender<Sender<T>>| next.holds(c) implies c == take_back by {
                            if c != take_back {
                                assert(slot.holds(c));
                            }
                        }
                    },
                    MaybeReferred::Referred(_, _) => {
                        let h = choose|h: Sender<Sender<T>>|
                            slot.holds(h) && forall|c: Sender<Sender<T>>| slot.holds(c) ==> c == h;
                        assert(next.holds(h));
                        assert forall|c: Sender<Sender<T>>| next.holds(c) implies c == h by {
                            assert(slot.holds(c));
                        }
                    },
                }
            }
        },
        Step::Work { who, payload } => {
            assert(slot.holder is Referred);
            assert(next.holds(who));
            assert forall|c: Sender<Sender<T>>| next.holds(c) implies c == who by {
                if c != who {
                    assert(slot.holds(c));
                }
            }
        },
        Step::Finish { who } => {
            assert(slot.holder is Referred);
            assert forall|c: Sender<Sender<T>>| !next.holds(c) by {
                if c != who {
                    assert(next.holds(c) ==> slot.holds(c));
                }
            }
        },
        Step::Yield { who, to } => {
            assert(slot.holder is Referred);
            assert(next.holds(to));
            assert forall|c: Sender<Sender<T>>| next.holds(c) implies c == to by {
                if c != to && c != who {
                    assert(slot.holds(c));
                }
            }
        },
    }
}

/// The subsystem stays in exactly one place through any run of steps.
pub proof fn lemma_run_keeps_sound<T>(slot: Slot<T>, steps: Seq<Step<T>>)
    requires
        slot.sound(),
        slot.allows_all(steps),
    ensures
        slot.after_all(steps).sound(),
    decreases steps.len(),
{
    if steps.len() > 0 {
        lemma_step_keeps_sound(slot, steps[0]);
        lemma_run_keeps_sound(slot.after(steps[0]), steps.drop_first());
    }
}

/// However claims, work, finishing and giving way follow each other on a
/// subsystem, no two commands ever have it at the same time, and none has it
/// while it is at rest in its slot.
pub proof fn lemma_exclusive_access<T>(
    payload: T,
    steps: Seq<Step<T>>,
    one: Sender<Sender<T>>,
    other: Sender<Sender<T>>,
)
    requires
        Slot::start(payload).allows_all(steps),
    ensures
        ({
            let now = Slot::start(payload).after_all(steps);
            &&& now.holds(one) && now.holds(other) ==> one == other
            &&& now.holder is Owned ==> !now.holds(one)
            &&& now.holds(one) ==> now.holder is Referred
        }),
{
    assert(Slot::start(payload).sound());
    lemma_run_keeps_sound(Slot::start(payload), steps);
}

/// A claim that does not outrank the command that has the subsystem changes
/// nothing: it is not registered, no stage is recorded for it, and so it
/// never comes to hold the subsystem.
pub proof fn lemma_refused_claim_changes_nothing<T>(
    slot: Slot<T>,
    priority: Priority,
    take_back: Sender<Sender<T>>,
)
    requires
        slot.allows(Step::Claim { priority, take_back }),
        slot.holder matches MaybeReferred::Referred(incumbent, _) && priority.0 <= incumbent.0,
    ensures
        slot.after(Step::Claim { priority, take_back }) == slot,
        !slot.after(Step::Claim { priority, take_back }).holds(take_back),
{
}

/// Whether `step` is a claim that brings the channel `take_back`.
pub open spec fn brings<T>(step: Step<T>, take_back: Sender<Sender<T>>) -> bool {
    step matches Step::Claim { take_back: brought, .. } && brought == take_back
}

/// Whether one of the steps is a claim that brings the channel `take_back`.
pub open spec fn claims_with<T>(steps: Seq<Step<T>>, take_back: Sender<Sender<T>>) -> bool {
    exists|i: int| 0 <= i < steps.len() && brings(#[trigger] steps[i], take_back)
}

/// A claim that was refused never comes to hold the subsystem, whatever
/// happens afterwards, as long as it does not claim again: the command
/// behind it is never run.
pub proof fn lemma_refused_claim_never_holds<T>(
    slot: Slot<T>,
    priority: Priority,
    take_back: Sender<Sender<T>>,
    later: Seq<Step<T>>,
)
    requires
        slot.allows(Step::Claim { priority, take_back }),
        slot.holder matches MaybeReferred::Referred(incumbent, _) && priority.0 <= incumbent.0,
        slot.after(Step::Claim { priority, take_back }).allows_all(later),
        !claims_with(later, take_back),
    ensures
        !slot.after(Step::Claim { priority, take_back }).after_all(later).holds(take_back),
{
    lemma_unknown_claim_stays_unknown(slot, take_back, later);
}

/// A channel that no claim has brought is not among the claims after steps
/// none of which brings it.
proof fn lemma_unknown_claim_stays_unknown<T>(
    slot: Slot<T>,
    take_back: Sender<Sender<T>>,
    steps: Seq<Step<T>>,
)
    requires
        !slot.claims.dom().contains(take_back),
        slot.allows_all(steps),
        !claims_with(steps, take_back),
    ensures
        !slot.after_all(steps).claims.dom().contains(take_back),
    decreases steps.len(),
{
    if steps.len() > 0 {
        let rest = steps.drop_first();
        assert(!brings(steps[0], take_back));
        assert(!claims_with(rest, take_back)) by {
            if claims_with(rest, take_back) {
                let i = choose|i: int| 0 <= i < rest.len() && brings(#[trigger] rest[i], take_back);
                assert(brings(steps[i + 1], take_back));
            }
        }
        lemma_unknown_claim_stays_unknown(slot.after(steps[0]), take_back, rest);
    }
}

/// A claim that outranks the registered one takes its place in the holder
/// state and waits for it; no other claim is touched. This holds also when
/// the registered claim is itself still waiting for the subsystem.
pub proof fn lemma_claim_waits_for_registered<T>(
    slot: Slot<T>,
    priority: Priority,
    take_back: Sender<Sender<T>>,
)
    requires
        slot.allows(Step::Claim { priority, take_back }),
        slot.holder matches MaybeReferred::Referred(incumbent, _) && priority.outranks(incumbent),
    ensures
        ({
            let claimed = slot.after(Step::Claim { priority, take_back });
            &&& claimed.holder == MaybeReferred::Referred(priority, take_back)
            &&& claimed.claims.dom() == slot.claims.dom().insert(take_back)
            &&& claimed.claims[take_back] == Stage::<T>::Awaiting {
                from: slot.holder->Referred_1,
            }
            &&& forall|c: Sender<Sender<T>>|
                c != take_back && slot.claims.dom().contains(c) ==> #[trigger] claimed.claims[c]
                    == slot.claims[c]
        }),
{
}

/// A command that gives way is through with the subsystem, and the claim
/// that waited for it has the subsystem, alone, in the very state in which
/// the command left it.
pub proof fn lemma_yield_passes_payload<T>(
    slot: Slot<T>,
    who: Sender<Sender<T>>,
    to: Sender<Sender<T>>,
)
    requires
        slot.sound(),
        slot.allows(Step::Yield { who, to }),
    ensures
        ({
            let yielded = slot.after(Step::Yield { who, to });
            &&& yielded.holder == slot.holder
            &&& yielded.claims[who] == Stage::<T>::Released
            &&& yielded.claims[to] == Stage::Holding { payload: slot.claims[who]->payload }
            &&& forall|c: Sender<Sender<T>>| yielded.holds(c) <==> c == to
        }),
{
    let yielded = slot.after(Step::Yield { who, to });
    lemma_step_keeps_sound(slot, Step::Yield { who, to });
    assert(yielded.holds(to));
}

/// A claim that outranks the command that has the subsystem is registered in
/// its place. When that command then gives way, it is through with the
/// subsystem, and the claimant has it in the very state in which the command
/// last left it.
pub proof fn lemma_preemption_passes_payload<T>(
    slot: Slot<T>,
    who: Sender<Sender<T>>,
    priority: Priority,
    take_back: Sender<Sender<T>>,
    left: T,
)
    requires
        slot.sound(),
        slot.holds(who),
        slot.holder matches MaybeReferred::Referred(incumbent, taker) && taker == who
            && priority.outranks(incumbent),
        slot.allows(Step::Claim { priority, take_back }),
    ensures
        ({
            let claimed = slot.after(Step::Claim { priority, take_back });
            let worked = claimed.after(Step::Work { who, payload: left });
            let yielded = worked.after(Step::Yield { who, to: take_back });
            &&& claimed.holder == MaybeReferred::Referred(priority, take_back)
            &&& claimed.allows(Step::Work { who, payload: left })
            &&& worked.allows(Step::Yield { who, to: take_back })
            &&& yielded.holder == MaybeReferred::Referred(priority, take_back)
            &&& yielded.claims[who] == Stage::<T>::Released
            &&& yielded.claims[take_back] == Stage::Holding { payload: left }
            &&& yielded.sound()
        }),
{
    let claimed = slot.after(Step::Claim { priority, take_back });
    let worked = claimed.after(Step::Work { who, payload: left });
    lemma_step_keeps_sound(slot, Step::Claim { priority, take_back });
    assert(claimed.holds(who));
    lemma_step_keeps_sound(claimed, Step::Work { who, payload: left });
    assert(worked.holds(who));
    assert(worked.claims[take_back] == Stage::<T>::Awaiting { from: who });
    lemma_step_keeps_sound(worked, Step::Yield { who, to: take_back });
}

/// While a subsystem is out, no claim lowers the priority that is registered
/// with it, and every claim that is let through raises it.
pub proof fn lemma_registered_priority_rises<T>(
    holder: MaybeReferred<T>,
    priority: Priority,
    take_back: Sender<Sender<T>>,
)
    requires
        holder is Referred,
    ensures
        ({
            let before = holder.registered()->Some_0;
            let after = holder.after_claim(priority, take_back).registered();
            &&& after matches Some(now) && now.0 >= before.0
            &&& holder.admits(priority) ==> after == Some(priority) && priority.0 > before.0
            &&& !holder.admits(priority) ==> holder.after_claim(priority, take_back) == holder
        }),
{
}

} // verus!
