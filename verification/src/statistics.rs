//! Read-only population statistics.
//!
//! All counts are computed fresh from live agent state on each call —
//! there are no cached counters — so two counts of an unchanged
//! population agree by construction: each result is pinned to a function
//! of the population alone.

use vstd::prelude::*;
use crate::agent::Agent;
use crate::journey_type::JourneyType;
use crate::population::Population;

verus! {

/// The number of agents whose current mode is active (walking or
/// cycling).
pub open spec fn spec_count_active(agents: Seq<Agent>) -> int
    decreases agents.len(),
{
    if agents.len() == 0 {
        0
    } else {
        spec_count_active(agents.drop_last()) + (if agents.last().current_mode.spec_is_active() {
            1int
        } else {
            0int
        })
    }
}

/// The number of active-mode agents with the given commute length.
pub open spec fn spec_count_active_by_journey(agents: Seq<Agent>, journey: JourneyType) -> int
    decreases agents.len(),
{
    if agents.len() == 0 {
        0
    } else {
        spec_count_active_by_journey(agents.drop_last(), journey) + (if agents.last().current_mode.spec_is_active()
            && agents.last().commute_length == journey {
            1int
        } else {
            0int
        })
    }
}

/// The number of active-mode agents living in neighbourhood `index`.
pub open spec fn spec_count_active_by_neighbourhood(agents: Seq<Agent>, index: int) -> int
    decreases agents.len(),
{
    if agents.len() == 0 {
        0
    } else {
        spec_count_active_by_neighbourhood(agents.drop_last(), index) + (if agents.last().current_mode.spec_is_active()
            && agents.last().neighbourhood == index {
            1int
        } else {
            0int
        })
    }
}

/// The active counts grouped by commute length sum to the ungrouped
/// active count: the three commute lengths partition the agents.
pub proof fn lemma_journey_counts_cover(agents: Seq<Agent>)
    ensures
        spec_count_active_by_journey(agents, JourneyType::LocalCommute)
            + spec_count_active_by_journey(agents, JourneyType::CityCommute)
            + spec_count_active_by_journey(agents, JourneyType::DistantCommute)
            == spec_count_active(agents),
    decreases agents.len(),
{
    if agents.len() > 0 {
        lemma_journey_counts_cover(agents.drop_last());
    }
}

/// The sum of the active counts of the first `bound` neighbourhoods.
pub open spec fn spec_sum_active_by_neighbourhood(agents: Seq<Agent>, bound: int) -> int
    decreases bound,
{
    if bound <= 0 {
        0
    } else {
        spec_sum_active_by_neighbourhood(agents, bound - 1) + spec_count_active_by_neighbourhood(
            agents,
            bound - 1,
        )
    }
}

/// Appending one agent raises the summed neighbourhood counts by one
/// exactly when the agent is active and lives under the bound.
proof fn lemma_sum_active_step(agents: Seq<Agent>, agent: Agent, bound: int)
    ensures
        spec_sum_active_by_neighbourhood(agents.push(agent), bound)
            == spec_sum_active_by_neighbourhood(agents, bound) + (if agent.current_mode.spec_is_active()
            && 0 <= agent.neighbourhood < bound {
            1int
        } else {
            0int
        }),
    decreases bound,
{
    if bound > 0 {
        lemma_sum_active_step(agents, agent, bound - 1);
        assert(agents.push(agent).drop_last() =~= agents);
    }
}

/// The active counts grouped by neighbourhood sum to the ungrouped
/// active count, provided every agent lives in a listed neighbourhood.
pub proof fn lemma_neighbourhood_counts_cover(agents: Seq<Agent>, bound: int)
    requires
        forall|i: int|
            0 <= i < agents.len() ==> (#[trigger] agents[i]).neighbourhood < bound,
    ensures
        spec_sum_active_by_neighbourhood(agents, bound) == spec_count_active(agents),
    decreases agents.len(),
{
    if agents.len() == 0 {
        assert(agents =~= Seq::<Agent>::empty());
        lemma_sum_empty(bound);
    } else {
        let shorter = agents.drop_last();
        assert forall|i: int|
            0 <= i < shorter.len() implies (#[trigger] shorter[i]).neighbourhood < bound by {
            assert(shorter[i] == agents[i]);
        }
        lemma_neighbourhood_counts_cover(shorter, bound);
        lemma_sum_active_step(shorter, agents.last(), bound);
        assert(shorter.push(agents.last()) =~= agents);
        assert(agents.last().neighbourhood < bound);
    }
}

/// The summed neighbourhood counts of an empty population are zero.
proof fn lemma_sum_empty(bound: int)
    ensures
        spec_sum_active_by_neighbourhood(Seq::<Agent>::empty(), bound) == 0,
    decreases bound,
{
    if bound > 0 {
        lemma_sum_empty(bound - 1);
    }
}

/// Counts the number of agents who take an active mode: the agents whose
/// current mode is Walk or Cycle.
pub fn count_active_mode(agents: &Vec<Agent>) -> (count: usize)
    ensures
        count == spec_count_active(agents@),
{
    let mut count: usize = 0;
    let mut i: usize = 0;
    while i < agents.len()
        invariant
            i <= agents@.len(),
            count == spec_count_active(agents@.take(i as int)),
            count <= i,
        decreases agents@.len() - i,
    {
        proof {
            let taken = agents@.take(i + 1);
            assert(taken.drop_last() =~= agents@.take(i as int));
            assert(taken.last() == agents@[i as int]);
        }
        if agents[i].current_mode.is_active() {
            count += 1;
        }
        i += 1;
    }
    proof {
        assert(agents@.take(agents@.len() as int) =~= agents@);
    }
    count
}

/// The active-mode counts grouped by commute length.
#[derive(Copy, Clone, PartialEq, Eq, Structural, Debug)]
pub struct ActiveModeByJourney {
    pub local_commute: usize,
    pub city_commute: usize,
    pub distant_commute: usize,
}

/// Counts the number of agents who take an active mode, grouped by
/// commute length.
pub fn count_active_mode_by_commute_length(agents: &Vec<Agent>) -> (counts: ActiveModeByJourney)
    ensures
        counts.local_commute == spec_count_active_by_journey(agents@, JourneyType::LocalCommute),
        counts.city_commute == spec_count_active_by_journey(agents@, JourneyType::CityCommute),
        counts.distant_commute == spec_count_active_by_journey(
            agents@,
            JourneyType::DistantCommute,
        ),
{
    let mut local_commute: usize = 0;
    let mut city_commute: usize = 0;
    let mut distant_commute: usize = 0;
    let mut i: usize = 0;
    while i < agents.len()
        invariant
            i <= agents@.len(),
            local_commute == spec_count_active_by_journey(
                agents@.take(i as int),
                JourneyType::LocalCommute,
            ),
            city_commute == spec_count_active_by_journey(
                agents@.take(i as int),
                JourneyType::CityCommute,
            ),
            distant_commute == spec_count_active_by_journey(
                agents@.take(i as int),
                JourneyType::DistantCommute,
            ),
            local_commute <= i && city_commute <= i && distant_commute <= i,
        decreases agents@.len() - i,
    {
        proof {
            let taken = agents@.take(i + 1);
            assert(taken.drop_last() =~= agents@.take(i as int));
            assert(taken.last() == agents@[i as int]);
        }
        if agents[i].current_mode.is_active() {
            match agents[i].commute_length {
                JourneyType::LocalCommute => local_commute += 1,
                JourneyType::CityCommute => city_commute += 1,
                JourneyType::DistantCommute => distant_commute += 1,
            }
        }
        i += 1;
    }
    proof {
        assert(agents@.take(agents@.len() as int) =~= agents@);
    }
    ActiveModeByJourney { local_commute, city_commute, distant_commute }
}

/// Counts the active-mode agents living in one neighbourhood.
fn count_active_in_neighbourhood(agents: &Vec<Agent>, index: usize) -> (count: usize)
    ensures
        count == spec_count_active_by_neighbourhood(agents@, index as int),
{
    let mut count: usize = 0;
    let mut i: usize = 0;
    while i < agents.len()
        invariant
            i <= agents@.len(),
            count == spec_count_active_by_neighbourhood(agents@.take(i as int), index as int),
            count <= i,
        decreases agents@.len() - i,
    {
        proof {
            let taken = agents@.take(i + 1);
            assert(taken.drop_last() =~= agents@.take(i as int));
            assert(taken.last() == agents@[i as int]);
        }
        if agents[i].current_mode.is_active() && agents[i].neighbourhood == index {
            count += 1;
        }
        i += 1;
    }
    proof {
        assert(agents@.take(agents@.len() as int) =~= agents@);
    }
    count
}

/// Counts the number of agents who take an active mode, grouped by
/// neighbourhood: entry `k` counts the active residents of the
/// population's neighbourhood `k`.
pub fn count_active_mode_by_neighbourhood(population: &Population) -> (counts: Vec<usize>)
    ensures
        counts@.len() == population.neighbourhoods@.len(),
        forall|k: int|
            0 <= k < counts@.len() ==> counts@[k] == spec_count_active_by_neighbourhood(
                population.agents@,
                k,
            ),
{
    let mut counts: Vec<usize> = Vec::new();
    let mut k: usize = 0;
    while k < population.neighbourhoods.len()
        invariant
            k <= population.neighbourhoods@.len(),
            counts@.len() == k,
            forall|m: int|
                0 <= m < k ==> counts@[m] == spec_count_active_by_neighbourhood(
                    population.agents@,
                    m,
                ),
        decreases population.neighbourhoods@.len() - k,
    {
        let count = count_active_in_neighbourhood(&population.agents, k);
        counts.push(count);
        k += 1;
    }
    counts
}

} // verus!
