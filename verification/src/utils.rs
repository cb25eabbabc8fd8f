use vstd::prelude::*;
use crate::object::{Object, Team};

verus! {

/// The number of entities in `s` owned by team `t`.
pub open spec fn spec_count_team(s: Seq<Object>, t: Team) -> int
    decreases s.len(),
{
    if s.len() == 0 {
        0
    } else {
        spec_count_team(s.drop_last(), t) + if s.last().team == t {
            1int
        } else {
            0int
        }
    }
}

/// A team's count never exceeds the number of entities.
pub proof fn lemma_count_team_bounds(s: Seq<Object>, t: Team)
    ensures
        0 <= spec_count_team(s, t) <= s.len(),
    decreases s.len(),
{
    if s.len() > 0 {
        lemma_count_team_bounds(s.drop_last(), t);
    }
}

/// The two team counts partition the grid: together they cover every
/// cell exactly once, since each cell is owned by exactly one of the two
/// teams.
pub proof fn lemma_counts_partition(s: Seq<Object>)
    ensures
        spec_count_team(s, Team::MOON) + spec_count_team(s, Team::SUN) == s.len(),
    decreases s.len(),
{
    if s.len() > 0 {
        lemma_counts_partition(s.drop_last());
    }
}

/// Counts the entities of `objects` currently owned by `team`.
pub fn count_objects(objects: &Vec<Object>, team: Team) -> (count: u32)
    requires
        objects@.len() <= u32::MAX,
    ensures
        count == spec_count_team(objects@, team),
{
    let mut count: u32 = 0;
    let mut i: usize = 0;
    proof {
        assert(objects@.take(0) =~= Seq::<Object>::empty());
    }
    while i < objects.len()
        invariant
            0 <= i <= objects@.len() <= u32::MAX,
            count == spec_count_team(objects@.take(i as int), team),
            count <= i,
        decreases objects@.len() - i,
    {
        proof {
            assert(objects@.take(i + 1).drop_last() =~= objects@.take(i as int));
            assert(objects@.take(i + 1).last() == objects@[i as int]);
        }
        if objects[i].team == team {
            count = count + 1;
        }
        i = i + 1;
    }
    proof {
        assert(objects@.take(objects@.len() as int) =~= objects@);
    }
    count
}

/// The score of the session: how many cells each team owns, Moon first.
pub fn score(objects: &Vec<Object>) -> (r: (u32, u32))
    requires
        objects@.len() <= u32::MAX,
    ensures
        r.0 == spec_count_team(objects@, Team::MOON),
        r.1 == spec_count_team(objects@, Team::SUN),
        r.0 + r.1 == objects@.len(),
{
    proof {
        lemma_counts_partition(objects@);
    }
    (count_objects(objects, Team::MOON), count_objects(objects, Team::SUN))
}

} // verus!
