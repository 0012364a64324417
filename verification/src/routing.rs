//! Provider selection and privacy-aware fallback policy.

use crate::error::{ErrorCategory, VoxError};
use crate::provider::{AudioAcceptance, ProviderId};
use crate::table::Table;
use vstd::prelude::*;

verus! {

#[derive(Clone, Copy, Debug, Eq, PartialEq, Structural)]
pub enum ReplayPolicy {
    Never,
    BeforeAudioAccepted,
    BufferedWithConsent,
}

impl Default for ReplayPolicy {
    fn default() -> (r: Self)
        ensures
            r == ReplayPolicy::Never,
    {
        ReplayPolicy::Never
    }
}

#[derive(Clone, Copy, Debug, Eq, PartialEq, Structural)]
pub enum FallbackReason {
    Connection,
    Timeout,
    RateLimited,
    Unavailable,
}

#[derive(Clone, Copy, Debug, Eq, PartialEq, Structural)]
pub struct ProviderHealth {
    pub available: bool,
    pub consecutive_failures: u32,
}

impl Default for ProviderHealth {
    fn default() -> (r: Self)
        ensures
            r.available,
            r.consecutive_failures == 0,
    {
        ProviderHealth { available: true, consecutive_failures: 0 }
    }
}

#[derive(Debug, Eq, PartialEq)]
pub struct RoutingPolicy {
    pub primary: ProviderId,
    pub fallbacks: Vec<ProviderId>,
    pub replay: ReplayPolicy,
}

#[derive(Debug, Eq, PartialEq)]
pub struct RoutePlan {
    pub providers: Vec<ProviderId>,
    pub replay: ReplayPolicy,
}

/// A provider can be used unless its health says that it is not available.
pub open spec fn usable(health: Table<ProviderHealth>, name: Seq<char>) -> bool {
    !health.has(name) || health.value_of(name).available
}

/// The usable ones among `ids`, in their order.
pub open spec fn usable_ids(ids: Seq<ProviderId>, health: Table<ProviderHealth>) -> Seq<
    ProviderId,
>
    decreases ids.len(),
{
    if ids.len() == 0 {
        Seq::empty()
    } else if usable(health, ids.last()@) {
        usable_ids(ids.drop_last(), health).push(ids.last())
    } else {
        usable_ids(ids.drop_last(), health)
    }
}

/// The primary provider and then its fallbacks.
pub open spec fn candidates(policy: RoutingPolicy) -> Seq<ProviderId> {
    seq![policy.primary] + policy.fallbacks@
}

pub trait ProviderRouter {
    /// Builds an ordered route from configured policy and current health.
    fn plan(&self, policy: &RoutingPolicy, health: &Table<ProviderHealth>) -> (r: Result<
        RoutePlan,
        VoxError,
    >);
}

#[derive(Debug)]
pub struct OrderedRouter;

fn is_usable(health: &Table<ProviderHealth>, id: &ProviderId) -> (r: bool)
    ensures
        r == usable(*health, id@),
{
    match health.get(id.as_str()) {
        Some(status) => status.available,
        None => true,
    }
}

impl ProviderRouter for OrderedRouter {
    /// The usable candidates in their order; an unavailable error when there is none.
    fn plan(&self, policy: &RoutingPolicy, health: &Table<ProviderHealth>) -> (r: Result<
        RoutePlan,
        VoxError,
    >)
        ensures
            match r {
                Ok(plan) => {
                    &&& plan.providers@ == usable_ids(candidates(*policy), *health)
                    &&& plan.providers@.len() > 0
                    &&& plan.replay == policy.replay
                },
                Err(error) => usable_ids(candidates(*policy), *health).len() == 0 && error.says(
                    ErrorCategory::Unavailable,
                    "routing.no_provider"@,
                    "no configured provider is currently available"@,
                    true,
                ),
            },
    {
        let mut providers: Vec<ProviderId> = Vec::new();
        let ghost all = candidates(*policy);
        if is_usable(health, &policy.primary) {
            providers.push(policy.primary.clone());
        }
        proof {
            assert(all.take(1).drop_last() =~= Seq::<ProviderId>::empty());
            reveal_with_fuel(usable_ids, 2);
            assert(providers@ =~= usable_ids(all.take(1), *health));
        }
        for i in 0..policy.fallbacks.len()
            invariant
                all == candidates(*policy),
                providers@ == usable_ids(all.take(i + 1), *health),
        {
            proof {
                assert(all.take(i + 2).drop_last() =~= all.take(i + 1));
                assert(all.take(i + 2).last() == policy.fallbacks@[i as int]);
            }
            if is_usable(health, &policy.fallbacks[i]) {
                providers.push(policy.fallbacks[i].clone());
            }
        }
        assert(all.take(all.len() as int) =~= all);
        if providers.len() == 0 {
            return Err(
                VoxError::new(
                    ErrorCategory::Unavailable,
                    "routing.no_provider",
                    "no configured provider is currently available",
                ).with_retryable(true),
            );
        }
        Ok(RoutePlan { providers, replay: policy.replay })
    }
}

/// Audio may be sent to the next provider: none was accepted, or replaying it has consent.
pub open spec fn replay_allowed(audio_acceptance: AudioAcceptance, replay: ReplayPolicy) -> bool {
    !audio_acceptance.may_have_left() || replay == ReplayPolicy::BufferedWithConsent
}

/// Whether a transient failure may be followed by another provider.
pub fn may_fallback(
    reason: FallbackReason,
    audio_acceptance: AudioAcceptance,
    replay: ReplayPolicy,
) -> (r: bool)
    ensures
        r == replay_allowed(audio_acceptance, replay),
{
    let transient = match reason {
        FallbackReason::Connection => true,
        FallbackReason::Timeout => true,
        FallbackReason::RateLimited => true,
        FallbackReason::Unavailable => true,
    };
    transient && (!audio_acceptance.may_have_left_process() || match replay {
        ReplayPolicy::BufferedWithConsent => true,
        ReplayPolicy::Never => false,
        ReplayPolicy::BeforeAudioAccepted => false,
    })
}

/// A planned route holds only candidates, and each of them is usable.
pub proof fn law_route_is_usable(ids: Seq<ProviderId>, health: Table<ProviderHealth>)
    ensures
        forall|i: int|
            0 <= i < usable_ids(ids, health).len() ==> usable(
                health,
                (#[trigger] usable_ids(ids, health)[i])@,
            ) && ids.contains(usable_ids(ids, health)[i]),
    decreases ids.len(),
{
    if ids.len() > 0 {
        let before = ids.drop_last();
        law_route_is_usable(before, health);
        assert forall|i: int| 0 <= i < usable_ids(ids, health).len() implies usable(
            health,
            (#[trigger] usable_ids(ids, health)[i])@,
        ) && ids.contains(usable_ids(ids, health)[i]) by {
            if i < usable_ids(before, health).len() {
                let id = usable_ids(before, health)[i];
                let k = choose|k: int| 0 <= k < before.len() && before[k] == id;
                assert(ids[k] == id);
            } else {
                assert(ids[ids.len() - 1] == ids.last());
            }
        }
    }
}

/// A usable candidate is never left out of the route.
pub proof fn law_route_keeps_every_usable(
    ids: Seq<ProviderId>,
    health: Table<ProviderHealth>,
    i: int,
)
    requires
        0 <= i < ids.len(),
        usable(health, ids[i]@),
    ensures
        usable_ids(ids, health).contains(ids[i]),
    decreases ids.len(),
{
    let before = ids.drop_last();
    if i < before.len() {
        law_route_keeps_every_usable(before, health, i);
        let k = choose|k: int|
            0 <= k < usable_ids(before, health).len() && usable_ids(before, health)[k] == ids[i];
        assert(usable_ids(ids, health)[k] == ids[i]);
    } else {
        assert(usable_ids(ids, health).last() == ids[i]);
    }
}

/// Audio that may have left the process goes to another provider only with consent.
pub proof fn law_no_replay_without_consent(
    audio_acceptance: AudioAcceptance,
    replay: ReplayPolicy,
)
    ensures
        audio_acceptance.may_have_left() && replay_allowed(audio_acceptance, replay) ==> replay
            == ReplayPolicy::BufferedWithConsent,
{
}

/// Audio goes to another provider exactly where none was accepted or replaying it has consent.
pub proof fn law_replay_is_decided_by_audio_and_consent(
    audio_acceptance: AudioAcceptance,
    replay: ReplayPolicy,
)
    ensures
        replay_allowed(audio_acceptance, replay) <==> audio_acceptance
            == AudioAcceptance::NotAccepted || replay == ReplayPolicy::BufferedWithConsent,
{
}

/// The primary provider comes first, and the route keeps the order of the policy: of two usable
/// candidates the one that is named first is asked first.
pub proof fn law_route_keeps_the_order(
    ids: Seq<ProviderId>,
    health: Table<ProviderHealth>,
    i: int,
    j: int,
)
    requires
        0 <= i < j < ids.len(),
        !health.has(ids[i]@) || health.value_of(ids[i]@).available,
        !health.has(ids[j]@) || health.value_of(ids[j]@).available,
    ensures
        exists|a: int, b: int|
            0 <= a < b < usable_ids(ids, health).len() && #[trigger] usable_ids(ids, health)[a]
                == ids[i] && #[trigger] usable_ids(ids, health)[b] == ids[j],
    decreases ids.len(),
{
    let before = ids.drop_last();
    if j < ids.len() - 1 {
        law_route_keeps_the_order(before, health, i, j);
        let (a, b) = choose|a: int, b: int|
            0 <= a < b < usable_ids(before, health).len() && #[trigger] usable_ids(
                before,
                health,
            )[a] == before[i] && #[trigger] usable_ids(before, health)[b] == before[j];
        assert(usable_ids(ids, health)[a] == ids[i]);
        assert(usable_ids(ids, health)[b] == ids[j]);
    } else {
        law_route_keeps_every_usable(before, health, i);
        let a = choose|a: int|
            0 <= a < usable_ids(before, health).len() && usable_ids(before, health)[a] == before[i];
        let b = usable_ids(ids, health).len() - 1;
        assert(usable_ids(ids, health)[a] == ids[i]);
        assert(usable_ids(ids, health)[b] == ids[j]);
    }
}

/// The candidates are the primary provider and the fallbacks behind it. A provider that nothing is
/// known of, or that is available, is usable, and no other one.
pub proof fn law_primary_comes_first(policy: RoutingPolicy, health: Table<ProviderHealth>)
    ensures
        candidates(policy).len() == policy.fallbacks@.len() + 1,
        candidates(policy)[0] == policy.primary,
        forall|i: int|
            0 <= i < policy.fallbacks@.len() ==> candidates(policy)[i + 1]
                == #[trigger] policy.fallbacks@[i],
        !health.has(policy.primary@) || health.value_of(policy.primary@).available ==> usable_ids(
            candidates(policy),
            health,
        ).len() > 0 && usable_ids(candidates(policy), health)[0] == policy.primary,
        forall|name: Seq<char>| #[trigger]
            usable(health, name) <==> (!health.has(name) || health.value_of(name).available),
{
    if usable(health, policy.primary@) {
        lemma_first_usable(candidates(policy), health);
    }
}

proof fn lemma_first_usable(ids: Seq<ProviderId>, health: Table<ProviderHealth>)
    requires
        ids.len() > 0,
        usable(health, ids[0]@),
    ensures
        usable_ids(ids, health).len() > 0,
        usable_ids(ids, health)[0] == ids[0],
    decreases ids.len(),
{
    if ids.len() > 1 {
        lemma_first_usable(ids.drop_last(), health);
    } else {
        reveal_with_fuel(usable_ids, 2);
    }
}

} // verus!
