//! Commands on several subsystems at once.
//!
//! The members of a group are numbered in the order in which their guards
//! are taken. A claim on a group is decided for all members at once, with
//! every guard held, and the members are then claimed one after the other in
//! that order. A group is let go in an order that never leaves a claimant
//! with one member in hand and the others out of reach.

use crate::priority::{admits, decide, Priority};
use crate::referred::MaybeReferred;
use tokio::sync::oneshot::Sender;
use vstd::prelude::*;

verus! {

/// One step of letting a group go.
#[derive(Debug, Clone, Copy, PartialEq, Eq, Structural)]
pub enum Release {
    /// Put the member with this number back at rest.
    PutBack(usize),
    /// Send the member with this number to the claimant that recalled it.
    HandOver(usize),
}

/// Whether a claim at `priority` is let through by every member, given for
/// each member the priority of the command it is out with.
pub open spec fn admits_all(holders: Seq<Option<Priority>>, priority: Priority) -> bool {
    forall|i: int| 0 <= i < holders.len() ==> admits(#[trigger] holders[i], priority)
}

/// Decides a claim on a whole group. It is let through only if every member
/// lets it through; nothing is reserved either way.
pub fn can_take_all(holders: &Vec<Option<Priority>>, priority: Priority) -> (ok: bool)
    ensures
        ok == admits_all(holders@, priority),
{
    let mut i: usize = 0;
    while i < holders.len()
        invariant
            i <= holders.len(),
            forall|j: int| 0 <= j < i ==> admits(#[trigger] holders@[j], priority),
        decreases holders.len() - i,
    {
        if !decide(holders[i], priority) {
            return false;
        }
        i += 1;
    }
    true
}

/// The members that are put back when `upto` members have been gone through:
/// each of them but the recalled one, in the order of their numbers.
pub open spec fn put_backs(upto: int, recalled: Option<usize>) -> Seq<Release> {
    let skipped = recalled matches Some(k) && k < upto;
    let count = if skipped { upto - 1 } else { upto };
    Seq::new(
        count as nat,
        |j: int| Release::PutBack((if recalled matches Some(k) && j >= k { j + 1 } else { j }) as usize),
    )
}

/// The order in which a group of `members` subsystems is let go: every member
/// that was not recalled is put back, and only then the recalled member, if
/// there is one, is handed over.
pub open spec fn release_plan(members: usize, recalled: Option<usize>) -> Seq<Release> {
    match recalled {
        None => put_backs(members as int, recalled),
        Some(k) => put_backs(members as int, recalled).push(Release::HandOver(k)),
    }
}

/// Lays out the order in which a group is let go, after the command ran to
/// its end (`recalled` is `None`) or after the member with the number
/// `recalled` was asked back.
pub fn release_order(members: usize, recalled: Option<usize>) -> (plan: Vec<Release>)
    requires
        recalled matches Some(k) ==> k < members,
    ensures
        plan@ == release_plan(members, recalled),
        forall|i: int, j: int|
            0 <= i < plan.len() && 0 <= j < plan.len() && plan[i] is PutBack && plan[j] is HandOver
                ==> i < j,
{
    let mut plan: Vec<Release> = Vec::new();
    let mut i: usize = 0;
    while i < members
        invariant
            i <= members,
            plan@ =~= put_backs(i as int, recalled),
        decreases members - i,
    {
        let skip = match recalled {
            Some(k) => k == i,
            None => false,
        };
        if !skip {
            plan.push(Release::PutBack(i));
        }
        i += 1;
    }
    match recalled {
        Some(k) => {
            plan.push(Release::HandOver(k));
        },
        None => {},
    }
    plan
}

/// In a release plan every member of the group appears once: the recalled
/// one is handed over in the last step, and each of the others is put back
/// in an earlier one.
pub proof fn lemma_release_plan_covers_group(members: usize, recalled: Option<usize>, member: usize)
    requires
        member < members,
        recalled matches Some(k) ==> k < members,
    ensures
        release_plan(members, recalled).len() == members,
        recalled == Some(member) ==> release_plan(members, recalled).last() == Release::HandOver(
            member,
        ),
        recalled != Some(member) ==> exists|i: int|
            0 <= i < put_backs(members as int, recalled).len() && #[trigger] release_plan(
                members,
                recalled,
            )[i] == Release::PutBack(member),
{
    let plan = release_plan(members, recalled);
    if recalled != Some(member) {
        let at: int = if recalled matches Some(k) && member > k {
            member - 1
        } else {
            member as int
        };
        assert(plan[at] == Release::PutBack(member));
    }
}

/// The holder states of a group after a command that has every member, in
/// the states `payloads`, carried out the steps of `plan` one after the
/// other. Putting a member back leaves it at rest; handing one over leaves
/// its holder state as the claimant set it.
pub open spec fn released<T>(
    holders: Seq<MaybeReferred<T>>,
    payloads: Seq<T>,
    plan: Seq<Release>,
) -> Seq<MaybeReferred<T>>
    decreases plan.len(),
{
    if plan.len() == 0 {
        holders
    } else {
        let before = released(holders, payloads, plan.drop_last());
        match plan.last() {
            Release::PutBack(j) => if j < before.len() {
                before.update(j as int, MaybeReferred::Owned(payloads[j as int]))
            } else {
                before
            },
            Release::HandOver(_) => before,
        }
    }
}

/// Going through the first `upto` members puts each of them but the recalled
/// one at rest and touches no other.
proof fn lemma_put_backs_rest<T>(
    holders: Seq<MaybeReferred<T>>,
    payloads: Seq<T>,
    upto: int,
    recalled: Option<usize>,
)
    requires
        holders.len() == payloads.len(),
        0 <= upto <= holders.len() <= usize::MAX,
    ensures
        ({
            let now = released(holders, payloads, put_backs(upto, recalled));
            &&& now.len() == holders.len()
            &&& forall|j: int|
                0 <= j < holders.len() ==> #[trigger] now[j] == if j < upto && recalled != Some(
                    j as usize,
                ) {
                    MaybeReferred::Owned(payloads[j])
                } else {
                    holders[j]
                }
        }),
    decreases upto,
{
    if upto > 0 {
        lemma_put_backs_rest(holders, payloads, upto - 1, recalled);
        if recalled == Some((upto - 1) as usize) {
            assert(put_backs(upto, recalled) =~= put_backs(upto - 1, recalled));
        } else {
            let longer = put_backs(upto, recalled);
            assert(longer.last() == Release::PutBack((upto - 1) as usize));
            assert(longer.drop_last() =~= put_backs(upto - 1, recalled));
        }
    }
}

/// When one member of a group is recalled, every other member is at rest
/// again, in the state the command left it in, before the recalled member is
/// handed over; handing over is the last step, and until then nothing has
/// happened to the recalled member.
pub proof fn lemma_others_rest_before_hand_over<T>(
    holders: Seq<MaybeReferred<T>>,
    payloads: Seq<T>,
    recalled: usize,
)
    requires
        holders.len() == payloads.len(),
        recalled < holders.len() <= usize::MAX,
    ensures
        ({
            let plan = release_plan(holders.len() as usize, Some(recalled));
            let before = released(holders, payloads, plan.drop_last());
            &&& plan.last() == Release::HandOver(recalled)
            &&& forall|i: int| 0 <= i < plan.len() - 1 ==> #[trigger] plan[i] is PutBack
            &&& before.len() == holders.len()
            &&& before[recalled as int] == holders[recalled as int]
            &&& forall|j: int|
                0 <= j < holders.len() && j != recalled ==> #[trigger] before[j]
                    == MaybeReferred::Owned(payloads[j])
        }),
{
    let members = holders.len() as usize;
    let plan = release_plan(members, Some(recalled));
    assert(plan.drop_last() =~= put_backs(members as int, Some(recalled)));
    lemma_put_backs_rest(holders, payloads, members as int, Some(recalled));
}

/// When the command of a group ran to its end, every member is put back at
/// rest in the state the command left it in.
pub proof fn lemma_finished_group_rests<T>(holders: Seq<MaybeReferred<T>>, payloads: Seq<T>)
    requires
        holders.len() == payloads.len() <= usize::MAX,
    ensures
        ({
            let now = released(holders, payloads, release_plan(holders.len() as usize, None));
            &&& now.len() == holders.len()
            &&& forall|j: int|
                0 <= j < holders.len() ==> #[trigger] now[j] == MaybeReferred::Owned(payloads[j])
        }),
{
    lemma_put_backs_rest(holders, payloads, holders.len() as int, None);
}

/// When every member lets a claim through, claiming the members one after
/// the other registers the claimant with each of them: none is left out.
pub proof fn lemma_admitted_group_is_taken_whole<T>(
    members: Seq<MaybeReferred<T>>,
    priority: Priority,
    take_backs: Seq<Sender<Sender<T>>>,
)
    requires
        take_backs.len() == members.len(),
        admits_all(members.map_values(|m: MaybeReferred<T>| m.registered()), priority),
    ensures
        forall|i: int|
            0 <= i < members.len() ==> (#[trigger] members[i]).after_claim(priority, take_backs[i])
                == MaybeReferred::Referred(priority, take_backs[i]),
{
    let holders = members.map_values(|m: MaybeReferred<T>| m.registered());
    assert forall|i: int| 0 <= i < members.len() implies (#[trigger] members[i]).after_claim(
        priority,
        take_backs[i],
    ) == MaybeReferred::Referred(priority, take_backs[i]) by {
        assert(admits(holders[i], priority));
    }
}

} // verus!
