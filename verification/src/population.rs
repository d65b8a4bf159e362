//! The population arena: agents, neighbourhoods and the global vehicle
//! stock, with the three bulk passes the day loop runs over the agents.
//!
//! Agents reference each other and their neighbourhood by index into the
//! arena, so all mutation goes through the owning population and no
//! aliasing arises.

use vstd::prelude::*;
use crate::SCALE;
use crate::agent::{
    count_in_subgroup, norm_from_shares, spec_norm_of_shares, spec_share_table, Agent,
};
use crate::neighbourhood::Neighbourhood;
use crate::transport_mode::TransportMode;
use crate::weather::Weather;

verus! {

/// The last modes of the listed members of the arena.
pub open spec fn spec_modes_of(agents: Seq<Agent>, members: Seq<usize>) -> Seq<TransportMode> {
    members.map(|_position: int, member: usize| agents[member as int].last_mode)
}

/// The norm of the agent at `index`: the dominant mode among its friends
/// and its geographic neighbours, weighted by its two connectivities.
pub open spec fn spec_norm_of(agents: Seq<Agent>, index: int) -> TransportMode {
    let agent = agents[index];
    spec_norm_of_shares(
        spec_share_table(spec_modes_of(agents, agent.social_network@), agent.social_connectivity),
        spec_share_table(
            spec_modes_of(agents, agent.neighbours@),
            agent.neighbourhood_connectivity,
        ),
    )
}

/// One agent after the start-of-day observation step.
pub open spec fn spec_habit_step(agent: Agent) -> Agent {
    Agent {
        last_mode: agent.current_mode,
        habit: agent.spec_updated_habit(agent.current_mode),
        ..agent
    }
}

/// The whole arena after the observation pass.
pub open spec fn spec_habit_pass(agents: Seq<Agent>) -> Seq<Agent> {
    Seq::new(agents.len(), |i: int| spec_habit_step(agents[i]))
}

/// The whole arena after the norm pass.
pub open spec fn spec_norm_pass(agents: Seq<Agent>) -> Seq<Agent> {
    Seq::new(agents.len(), |i: int| Agent { norm: spec_norm_of(agents, i), ..agents[i] })
}

/// The whole arena after the decision pass.
pub open spec fn spec_choice_pass(agents: Seq<Agent>, weather: Weather, change_in_weather: bool) -> Seq<
    Agent,
> {
    Seq::new(
        agents.len(),
        |i: int| Agent { current_mode: agents[i].spec_choice(weather, change_in_weather), ..agents[i] },
    )
}

/// Checks that every entry of `list` is below `bound`.
fn indices_below(list: &Vec<usize>, bound: usize) -> (ok: bool)
    ensures
        ok == forall|j: int| 0 <= j < list@.len() ==> (#[trigger] list@[j]) < bound,
{
    let mut i: usize = 0;
    while i < list.len()
        invariant
            i <= list@.len(),
            forall|j: int| 0 <= j < i ==> (#[trigger] list@[j]) < bound,
        decreases list@.len() - i,
    {
        if list[i] >= bound {
            proof {
                assert(list@[i as int] >= bound);
            }
            return false;
        }
        i += 1;
    }
    true
}

/// A population: the agent arena, its neighbourhoods, and the global
/// vehicle stock the interventions adjust.
pub struct Population {
    /// The agents; an agent's identity is its position here.
    pub agents: Vec<Agent>,
    /// The neighbourhoods; agents point at them by index.
    pub neighbourhoods: Vec<Neighbourhood>,
    /// The global number of bikes.
    pub number_of_bikes: u64,
    /// The global number of cars.
    pub number_of_cars: u64,
}

impl Population {
    /// The index lists of the agent at `index` stay inside the arena.
    pub open spec fn spec_agent_links_wf(self, index: int) -> bool {
        let agent = self.agents[index];
        &&& forall|j: int|
            0 <= j < agent.social_network.len() ==> (#[trigger] agent.social_network[j])
                < self.agents.len()
        &&& forall|j: int|
            0 <= j < agent.neighbours.len() ==> (#[trigger] agent.neighbours[j])
                < self.agents.len()
        &&& agent.neighbourhood < self.neighbourhoods.len()
    }

    /// Every agent's scores are in range, every index points inside the
    /// arena, and every neighbourhood is well-formed.
    pub open spec fn spec_wf(self) -> bool {
        &&& forall|i: int| 0 <= i < self.agents.len() ==> (#[trigger] self.agents[i]).spec_wf()
        &&& forall|i: int| 0 <= i < self.agents.len() ==> #[trigger] self.spec_agent_links_wf(i)
        &&& forall|k: int|
            0 <= k < self.neighbourhoods.len() ==> (#[trigger] self.neighbourhoods[k]).spec_wf()
    }

    /// Checks the whole-population well-formedness, the fail-fast guard
    /// a caller runs on loaded configuration.
    pub fn is_wf(&self) -> (ok: bool)
        ensures
            ok == self.spec_wf(),
    {
        let mut k: usize = 0;
        while k < self.neighbourhoods.len()
            invariant
                k <= self.neighbourhoods@.len(),
                forall|m: int|
                    0 <= m < k ==> (#[trigger] self.neighbourhoods@[m]).spec_wf(),
            decreases self.neighbourhoods@.len() - k,
        {
            if !self.neighbourhoods[k].is_wf() {
                proof {
                    assert(!self.neighbourhoods@[k as int].spec_wf());
                }
                return false;
            }
            k += 1;
        }
        let mut i: usize = 0;
        while i < self.agents.len()
            invariant
                i <= self.agents@.len(),
                forall|m: int| 0 <= m < i ==> (#[trigger] self.agents@[m]).spec_wf(),
                forall|m: int| 0 <= m < i ==> #[trigger] self.spec_agent_links_wf(m),
                forall|m: int|
                    0 <= m < self.neighbourhoods@.len() ==> (
                    #[trigger] self.neighbourhoods@[m]).spec_wf(),
            decreases self.agents@.len() - i,
        {
            let agent = &self.agents[i];
            if !agent.is_wf() {
                proof {
                    assert(!self.agents@[i as int].spec_wf());
                }
                return false;
            }
            if agent.neighbourhood >= self.neighbourhoods.len() {
                proof {
                    assert(!self.spec_agent_links_wf(i as int));
                }
                return false;
            }
            if !indices_below(&agent.social_network, self.agents.len()) {
                proof {
                    assert(!self.spec_agent_links_wf(i as int));
                }
                return false;
            }
            if !indices_below(&agent.neighbours, self.agents.len()) {
                proof {
                    assert(!self.spec_agent_links_wf(i as int));
                }
                return false;
            }
            proof {
                assert(self.spec_agent_links_wf(i as int));
            }
            i += 1;
        }
        true
    }

    /// Start-of-day observation pass: every agent records yesterday's
    /// mode and re-weights its habit scores.
    pub fn update_habits(&mut self)
        requires
            old(self).spec_wf(),
        ensures
            final(self).spec_wf(),
            final(self).agents@ == spec_habit_pass(old(self).agents@),
            final(self).neighbourhoods == old(self).neighbourhoods,
            final(self).number_of_bikes == old(self).number_of_bikes,
            final(self).number_of_cars == old(self).number_of_cars,
    {
        let ghost original = *self;
        let mut i: usize = 0;
        while i < self.agents.len()
            invariant
                original.spec_wf(),
                i <= self.agents@.len(),
                self.agents@.len() == original.agents@.len(),
                forall|m: int|
                    0 <= m < i ==> self.agents@[m] == spec_habit_step(original.agents@[m]),
                forall|m: int| 0 <= m < i ==> (#[trigger] self.agents@[m]).spec_wf(),
                forall|m: int|
                    i <= m < self.agents@.len() ==> self.agents@[m] == original.agents@[m],
                self.neighbourhoods == original.neighbourhoods,
                self.number_of_bikes == original.number_of_bikes,
                self.number_of_cars == original.number_of_cars,
                original == *old(self),
            decreases self.agents@.len() - i,
        {
            proof {
                assert(original.agents@[i as int].spec_wf());
            }
            let ghost before = self.agents@;
            let mut agent = self.agents.remove(i);
            agent.update_habit();
            self.agents.insert(i, agent);
            proof {
                assert(self.agents@ =~= before.update(
                    i as int,
                    spec_habit_step(original.agents@[i as int]),
                ));
            }
            i += 1;
        }
        proof {
            assert(self.agents@ =~= spec_habit_pass(original.agents@));
            lemma_pass_preserves_wf(original, *self);
        }
    }

    /// Norm pass: recomputes every agent's norm from the current last
    /// modes; only the norm fields change.
    pub fn update_norms(&mut self)
        requires
            old(self).spec_wf(),
        ensures
            final(self).spec_wf(),
            final(self).agents@ == spec_norm_pass(old(self).agents@),
            final(self).neighbourhoods == old(self).neighbourhoods,
            final(self).number_of_bikes == old(self).number_of_bikes,
            final(self).number_of_cars == old(self).number_of_cars,
    {
        let ghost original = *self;
        let mut norms: Vec<TransportMode> = Vec::new();
        let mut i: usize = 0;
        while i < self.agents.len()
            invariant
                *self == original,
                original == *old(self),
                original.spec_wf(),
                i <= self.agents@.len(),
                norms@.len() == i,
                forall|m: int| 0 <= m < i ==> norms@[m] == spec_norm_of(original.agents@, m),
            decreases self.agents@.len() - i,
        {
            proof {
                assert(original.spec_agent_links_wf(i as int));
                assert(original.agents@[i as int].spec_wf());
            }
            let agent = &self.agents[i];
            let social_modes = last_modes_of(&self.agents, &agent.social_network);
            let neighbour_modes = last_modes_of(&self.agents, &agent.neighbours);
            let social_shares = count_in_subgroup(&social_modes, agent.social_connectivity);
            let neighbour_shares = count_in_subgroup(
                &neighbour_modes,
                agent.neighbourhood_connectivity,
            );
            proof {
                assert forall|mode: TransportMode| social_shares.spec_get(mode) <= SCALE by {
                    assert(social_shares.spec_get(mode) <= agent.social_connectivity);
                }
                assert forall|mode: TransportMode| neighbour_shares.spec_get(mode) <= SCALE by {
                    assert(neighbour_shares.spec_get(mode) <= agent.neighbourhood_connectivity);
                }
            }
            let norm = norm_from_shares(&social_shares, &neighbour_shares);
            norms.push(norm);
            i += 1;
        }
        let mut i: usize = 0;
        while i < self.agents.len()
            invariant
                original == *old(self),
                original.spec_wf(),
                i <= self.agents@.len(),
                self.agents@.len() == original.agents@.len(),
                norms@.len() == original.agents@.len(),
                forall|m: int|
                    0 <= m < norms@.len() ==> norms@[m] == spec_norm_of(original.agents@, m),
                forall|m: int|
                    0 <= m < i ==> self.agents@[m] == (Agent {
                        norm: norms@[m],
                        ..original.agents@[m]
                    }),
                forall|m: int|
                    i <= m < self.agents@.len() ==> self.agents@[m] == original.agents@[m],
                self.neighbourhoods == original.neighbourhoods,
                self.number_of_bikes == original.number_of_bikes,
                self.number_of_cars == original.number_of_cars,
            decreases self.agents@.len() - i,
        {
            let norm = norms[i];
            let ghost before = self.agents@;
            let mut agent = self.agents.remove(i);
            agent.norm = norm;
            self.agents.insert(i, agent);
            proof {
                assert(self.agents@ =~= before.update(
                    i as int,
                    (Agent { norm: norms@[i as int], ..original.agents@[i as int] }),
                ));
            }
            i += 1;
        }
        proof {
            assert(self.agents@ =~= spec_norm_pass(original.agents@));
            lemma_pass_preserves_wf(original, *self);
        }
    }

    /// Decision pass: every agent chooses its mode for the day from the
    /// given weather and change flag; only the current modes change.
    pub fn choose_all(&mut self, weather: &Weather, change_in_weather: bool)
        requires
            old(self).spec_wf(),
        ensures
            final(self).spec_wf(),
            final(self).agents@ == spec_choice_pass(
                old(self).agents@,
                *weather,
                change_in_weather,
            ),
            final(self).neighbourhoods == old(self).neighbourhoods,
            final(self).number_of_bikes == old(self).number_of_bikes,
            final(self).number_of_cars == old(self).number_of_cars,
    {
        let ghost original = *self;
        let mut i: usize = 0;
        while i < self.agents.len()
            invariant
                original.spec_wf(),
                i <= self.agents@.len(),
                self.agents@.len() == original.agents@.len(),
                forall|m: int|
                    0 <= m < i ==> self.agents@[m] == (Agent {
                        current_mode: original.agents@[m].spec_choice(
                            *weather,
                            change_in_weather,
                        ),
                        ..original.agents@[m]
                    }),
                forall|m: int|
                    i <= m < self.agents@.len() ==> self.agents@[m] == original.agents@[m],
                self.neighbourhoods == original.neighbourhoods,
                self.number_of_bikes == original.number_of_bikes,
                self.number_of_cars == original.number_of_cars,
                original == *old(self),
            decreases self.agents@.len() - i,
        {
            proof {
                assert(original.agents@[i as int].spec_wf());
            }
            let ghost before = self.agents@;
            let mut agent = self.agents.remove(i);
            agent.choose_mode(weather, change_in_weather);
            self.agents.insert(i, agent);
            proof {
                assert(self.agents@ =~= before.update(
                    i as int,
                    (Agent {
                        current_mode: original.agents@[i as int].spec_choice(
                            *weather,
                            change_in_weather,
                        ),
                        ..original.agents@[i as int]
                    }),
                ));
            }
            i += 1;
        }
        proof {
            assert(self.agents@ =~= spec_choice_pass(original.agents@, *weather, change_in_weather));
            lemma_pass_preserves_wf(original, *self);
        }
    }
}

/// Collects the last modes of the listed members.
fn last_modes_of(agents: &Vec<Agent>, members: &Vec<usize>) -> (modes: Vec<TransportMode>)
    requires
        forall|j: int| 0 <= j < members@.len() ==> (#[trigger] members@[j]) < agents@.len(),
    ensures
        modes@ == spec_modes_of(agents@, members@),
{
    let mut modes: Vec<TransportMode> = Vec::new();
    let mut i: usize = 0;
    while i < members.len()
        invariant
            i <= members@.len(),
            modes@.len() == i,
            forall|j: int| 0 <= j < members@.len() ==> (#[trigger] members@[j]) < agents@.len(),
            forall|k: int|
                0 <= k < i ==> modes@[k] == agents@[members@[k] as int].last_mode,
        decreases members@.len() - i,
    {
        let member = members[i];
        modes.push(agents[member].last_mode);
        i += 1;
    }
    proof {
        assert(modes@ =~= spec_modes_of(agents@, members@));
    }
    modes
}

/// A pass that keeps every agent's weights, scores, index lists and
/// neighbourhood reference, and the population's neighbourhoods, keeps
/// the population well-formed.
proof fn lemma_pass_preserves_wf(before: Population, after: Population)
    requires
        before.spec_wf(),
        after.agents@.len() == before.agents@.len(),
        forall|i: int|
            0 <= i < after.agents@.len() ==> {
                let now = #[trigger] after.agents@[i];
                let was = before.agents@[i];
                now.weather_sensitivity == was.weather_sensitivity && now.consistency
                    == was.consistency && now.social_connectivity == was.social_connectivity
                    && now.neighbourhood_connectivity == was.neighbourhood_connectivity
                    && (now.average_weight == was.average_weight && now.social_network
                    == was.social_network && now.neighbours == was.neighbours
                    && now.neighbourhood == was.neighbourhood) && (now.habit.spec_all_at_most(
                    SCALE,
                ) || now.habit == was.habit)
            },
        after.neighbourhoods == before.neighbourhoods,
    ensures
        after.spec_wf(),
{
    assert forall|i: int| 0 <= i < after.agents.len() implies (
    #[trigger] after.agents[i]).spec_wf() by {
        assert(before.agents[i].spec_wf());
    }
    assert forall|i: int| 0 <= i < after.agents.len() implies #[trigger] after.spec_agent_links_wf(
        i,
    ) by {
        assert(before.spec_agent_links_wf(i));
        let now = after.agents[i];
        let was = before.agents[i];
        assert forall|j: int|
            0 <= j < now.social_network.len() implies (#[trigger] now.social_network[j])
            < after.agents.len() by {
            assert(was.social_network[j] < before.agents.len());
        }
        assert forall|j: int|
            0 <= j < now.neighbours.len() implies (#[trigger] now.neighbours[j])
            < after.agents.len() by {
            assert(was.neighbours[j] < before.agents.len());
        }
    }
}

} // verus!
