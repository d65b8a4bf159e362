//! The friendship-graph generator.
//!
//! Builds a random graph over a synthetic population in which every
//! person has at least the requested number of links, approximating a
//! target mean degree of twice that number: random partners are drawn
//! first, and any vertex still short of links is topped up
//! deterministically.  The graph never holds a self-loop or a duplicate
//! edge and is symmetric by construction.

use vstd::prelude::*;
use vstd::set_lib::lemma_len_subset;
use crate::errors::ConfigError;

verus! {

/// A well-formed adjacency structure: every entry is a real, distinct
/// vertex other than its owner, no list repeats an entry, and every
/// edge is stored in both directions.
pub open spec fn spec_network_wf(adjacency: Seq<Vec<u32>>) -> bool {
    &&& forall|v: int|
        0 <= v < adjacency.len() ==> (#[trigger] adjacency[v])@.no_duplicates()
    &&& forall|v: int, j: int|
        0 <= v < adjacency.len() && 0 <= j < adjacency[v]@.len() ==> (#[trigger] adjacency[v]@[j])
            < adjacency.len() && adjacency[v]@[j] != v
    &&& forall|v: int, j: int|
        0 <= v < adjacency.len() && 0 <= j < adjacency[v]@.len() ==> (#[trigger] adjacency[(
        adjacency[v]@[j]) as int]@).contains(v as u32)
}

/// A pushed list still contains everything it contained.
proof fn lemma_push_preserves_contains(list: Seq<u32>, pushed: u32, kept: u32)
    requires
        list.contains(kept),
    ensures
        list.push(pushed).contains(kept),
{
    let position = choose|position: int| 0 <= position < list.len() && list[position] == kept;
    assert(list.push(pushed)[position] == kept);
}

/// The set of vertices below `people` other than `vertex` has
/// `people - 1` members when `vertex` is one of them.
proof fn lemma_others_card(people: u32, vertex: u32)
    ensures
        Set::new(|w: u32| w < people && w != vertex).finite(),
        Set::new(|w: u32| w < people && w != vertex).len() == if vertex < people {
            people - 1
        } else {
            people as int
        },
    decreases people,
{
    broadcast use vstd::set::group_set_axioms;

    let others = Set::new(|w: u32| w < people && w != vertex);
    if people == 0 {
        assert(others =~= Set::empty());
    } else {
        lemma_others_card((people - 1) as u32, vertex);
        let fewer = Set::new(|w: u32| w < (people - 1) as u32 && w != vertex);
        if vertex == people - 1 {
            assert(others =~= fewer);
        } else {
            assert(others =~= fewer.insert((people - 1) as u32));
            assert(!fewer.contains((people - 1) as u32));
        }
    }
}

/// A duplicate-free list that contains every vertex below `people`
/// other than `vertex` has at least `people - 1` entries.
proof fn lemma_near_full_list_len(list: Seq<u32>, people: u32, vertex: u32)
    requires
        list.no_duplicates(),
        forall|w: u32| w < people && w != vertex ==> list.contains(w),
        vertex < people,
    ensures
        list.len() >= people - 1,
{
    broadcast use vstd::seq_lib::seq_to_set_is_finite;
    broadcast use vstd::set::group_set_axioms;

    list.unique_seq_to_set();
    let others = Set::new(|w: u32| w < people && w != vertex);
    lemma_others_card(people, vertex);
    assert forall|w: u32| others.contains(w) implies list.to_set().contains(w) by {
        assert(list.contains(w));
    }
    assert(others.subset_of(list.to_set()));
    lemma_len_subset(others, list.to_set());
}

/// Checks whether `list` contains `value`.
fn list_contains(list: &Vec<u32>, value: u32) -> (present: bool)
    ensures
        present == list@.contains(value),
{
    let mut i: usize = 0;
    while i < list.len()
        invariant
            i <= list@.len(),
            forall|j: int| 0 <= j < i ==> list@[j] != value,
        decreases list@.len() - i,
    {
        if list[i] == value {
            return true;
        }
        i += 1;
    }
    proof {
        if list@.contains(value) {
            let j = choose|j: int| 0 <= j < list@.len() && list@[j] == value;
            assert(list@[j] != value);
        }
    }
    false
}

/// Adds the symmetric edge between `a` and `b` to both lists.
fn link(adjacency: &mut Vec<Vec<u32>>, a: usize, b: usize)
    requires
        spec_network_wf(old(adjacency)@),
        old(adjacency)@.len() <= u32::MAX,
        a < old(adjacency)@.len(),
        b < old(adjacency)@.len(),
        a != b,
        !old(adjacency)@[a as int]@.contains(b as u32),
    ensures
        spec_network_wf(final(adjacency)@),
        final(adjacency)@.len() == old(adjacency)@.len(),
        final(adjacency)@[a as int]@ == old(adjacency)@[a as int]@.push(b as u32),
        final(adjacency)@[b as int]@ == old(adjacency)@[b as int]@.push(a as u32),
        forall|v: int|
            0 <= v < old(adjacency)@.len() && v != a && v != b ==> final(adjacency)@[v] == old(
                adjacency,
            )@[v],
{
    let ghost before = adjacency@;
    proof {
        // symmetry says the reverse direction is absent as well
        if before[b as int]@.contains(a as u32) {
            let j = choose|j: int|
                0 <= j < before[b as int]@.len() && before[b as int]@[j] == a as u32;
            assert(before[(before[b as int]@[j]) as int]@.contains(b as u32));
        }
    }
    let mut list_a = adjacency.remove(a);
    list_a.push(b as u32);
    adjacency.insert(a, list_a);
    let mut list_b = adjacency.remove(b);
    list_b.push(a as u32);
    adjacency.insert(b, list_b);
    proof {
        let after = adjacency@;
        assert(after =~= before.update(a as int, after[a as int]).update(b as int, after[b as int]));
        assert(after[a as int]@ == before[a as int]@.push(b as u32));
        assert(after[b as int]@ == before[b as int]@.push(a as u32));
        assert forall|v: int|
            0 <= v < after.len() implies (#[trigger] after[v])@.no_duplicates() by {
            if v == a {
                assert forall|p: int, q: int|
                    0 <= p < q < after[v]@.len() implies after[v]@[p] != after[v]@[q] by {
                    if q == after[v]@.len() - 1 {
                        assert(after[v]@[p] == before[v]@[p]);
                        assert(after[v]@[q] == b as u32);
                        if before[v]@[p] == b as u32 {
                            assert(before[v]@.contains(b as u32));
                        }
                    } else {
                        assert(after[v]@[p] == before[v]@[p]);
                        assert(after[v]@[q] == before[v]@[q]);
                    }
                }
            } else if v == b {
                assert forall|p: int, q: int|
                    0 <= p < q < after[v]@.len() implies after[v]@[p] != after[v]@[q] by {
                    if q == after[v]@.len() - 1 {
                        assert(after[v]@[p] == before[v]@[p]);
                        assert(after[v]@[q] == a as u32);
                        if before[v]@[p] == a as u32 {
                            assert(before[v]@.contains(a as u32));
                        }
                    } else {
                        assert(after[v]@[p] == before[v]@[p]);
                        assert(after[v]@[q] == before[v]@[q]);
                    }
                }
            } else {
                assert(after[v]@ == before[v]@);
            }
        }
        assert forall|v: int, j: int|
            0 <= v < after.len() && 0 <= j < after[v]@.len() implies (#[trigger] after[v]@[j])
            < after.len() && after[v]@[j] != v by {
            if v == a && j == after[v]@.len() - 1 {
                assert(after[v]@[j] == b as u32);
            } else if v == b && j == after[v]@.len() - 1 {
                assert(after[v]@[j] == a as u32);
            } else {
                assert(after[v]@[j] == before[v]@[j]);
            }
        }
        assert forall|v: int, j: int|
            0 <= v < after.len() && 0 <= j < after[v]@.len() implies (#[trigger] after[(
        after[v]@[j]) as int]@).contains(v as u32) by {
            if v == a && j == after[v]@.len() - 1 {
                assert(after[v]@[j] == b as u32);
                assert(after[b as int]@[after[b as int]@.len() - 1] == a as u32);
                assert(after[b as int]@.contains(a as u32));
            } else if v == b && j == after[v]@.len() - 1 {
                assert(after[v]@[j] == a as u32);
                assert(after[a as int]@[after[a as int]@.len() - 1] == b as u32);
                assert(after[a as int]@.contains(b as u32));
            } else {
                assert(after[v]@[j] == before[v]@[j]);
                let w = before[v]@[j] as int;
                assert(before[w]@.contains(v as u32));
                if w == a {
                    lemma_push_preserves_contains(before[w]@, b as u32, v as u32);
                } else if w == b {
                    lemma_push_preserves_contains(before[w]@, a as u32, v as u32);
                } else {
                    assert(after[w]@ == before[w]@);
                }
            }
        }
    }
}

/// Generates a friendship graph over `number_of_people` vertices in
/// which every vertex has at least `min_links` distinct links, no
/// vertex links to itself, no edge repeats, and every edge runs both
/// ways.  Fails when a non-empty population is too small for that
/// minimum degree.
pub fn generate_social_network(min_links: u32, number_of_people: u32) -> (result: Result<
    Vec<Vec<u32>>,
    ConfigError,
>)
    ensures
        result is Ok <==> (number_of_people == 0 || min_links < number_of_people),
        match result {
            Ok(adjacency) => {
                &&& adjacency@.len() == number_of_people
                &&& spec_network_wf(adjacency@)
                &&& forall|v: int|
                    0 <= v < adjacency@.len() ==> (#[trigger] adjacency@[v])@.len() >= min_links
            },
            Err(fault) => fault == ConfigError::TooFewPeopleForLinks,
        },
{
    if number_of_people > 0 && min_links >= number_of_people {
        return Err(ConfigError::TooFewPeopleForLinks);
    }
    let people = number_of_people as usize;
    let mut adjacency: Vec<Vec<u32>> = Vec::new();
    while adjacency.len() < people
        invariant
            adjacency@.len() <= people,
            forall|v: int| 0 <= v < adjacency@.len() ==> (#[trigger] adjacency@[v])@.len() == 0,
        decreases people - adjacency@.len(),
    {
        adjacency.push(Vec::new());
    }
    let mut i: usize = 0;
    while i < people
        invariant
            people == number_of_people as usize,
            number_of_people == 0 || min_links < number_of_people,
            i <= people,
            adjacency@.len() == people,
            spec_network_wf(adjacency@),
            forall|v: int| 0 <= v < i ==> (#[trigger] adjacency@[v])@.len() >= min_links,
        decreases people - i,
    {
        // draw random partners first, for a bounded number of attempts
        let mut attempts: u64 = 8 * (min_links as u64) + 32;
        while attempts > 0 && adjacency[i].len() < min_links as usize
            invariant
                people == number_of_people as usize,
                i < people,
                adjacency@.len() == people,
                spec_network_wf(adjacency@),
                forall|v: int| 0 <= v < i ==> (#[trigger] adjacency@[v])@.len() >= min_links,
            decreases attempts,
        {
            let draw = rand::random::<u64>();
            let candidate = (draw % (people as u64)) as usize;
            if candidate != i && !list_contains(&adjacency[i], candidate as u32) {
                link(&mut adjacency, i, candidate);
                proof {
                    assert forall|v: int|
                        0 <= v < i implies (#[trigger] adjacency@[v])@.len() >= min_links by {}
                }
            }
            attempts -= 1;
        }
        // top up deterministically; a short vertex scans every other one
        let mut candidate: usize = 0;
        while candidate < people && adjacency[i].len() < min_links as usize
            invariant
                people == number_of_people as usize,
                number_of_people == 0 || min_links < number_of_people,
                i < people,
                candidate <= people,
                adjacency@.len() == people,
                spec_network_wf(adjacency@),
                forall|v: int| 0 <= v < i ==> (#[trigger] adjacency@[v])@.len() >= min_links,
                adjacency@[i as int]@.len() < min_links ==> forall|w: u32|
                    w < candidate && w != i as u32 ==> adjacency@[i as int]@.contains(w),
            decreases people - candidate,
        {
            if candidate != i && !list_contains(&adjacency[i], candidate as u32) {
                let ghost before = adjacency@;
                link(&mut adjacency, i, candidate);
                proof {
                    assert forall|v: int|
                        0 <= v < i implies (#[trigger] adjacency@[v])@.len() >= min_links by {}
                    if adjacency@[i as int]@.len() < min_links {
                        assert forall|w: u32|
                            w < candidate + 1 && w != i as u32 implies adjacency@[i as
                        int]@.contains(w) by {
                            if w < candidate {
                                lemma_push_preserves_contains(
                                    before[i as int]@,
                                    candidate as u32,
                                    w,
                                );
                            } else {
                                assert(adjacency@[i as int]@.last() == candidate as u32);
                            }
                        }
                    }
                }
            } else {
                proof {
                    if adjacency@[i as int]@.len() < min_links {
                        assert forall|w: u32|
                            w < candidate + 1 && w != i as u32 implies adjacency@[i as
                        int]@.contains(w) by {}
                    }
                }
            }
            candidate += 1;
        }
        proof {
            if adjacency@[i as int]@.len() < min_links {
                lemma_near_full_list_len(
                    adjacency@[i as int]@,
                    number_of_people,
                    i as u32,
                );
            }
        }
        i += 1;
    }
    Ok(adjacency)
}

} // verus!
