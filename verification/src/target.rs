//! The choice of a target: the nearest enemy.

use vstd::prelude::*;
use crate::vec3::{squared_distance, Point3, Vec3};

verus! {

/// `targets[i]` is the target nearest to `shooter`, and the first such one where
/// several lie equally near.
pub open spec fn is_closest(shooter: Point3, targets: Seq<Vec3>, i: int) -> bool {
    &&& 0 <= i < targets.len()
    &&& forall|j: int|
        0 <= j < targets.len() ==> squared_distance(shooter, targets[i]@) <= squared_distance(
            shooter,
            (#[trigger] targets[j])@,
        )
    &&& forall|j: int|
        0 <= j < i ==> squared_distance(shooter, targets[i]@) < squared_distance(
            shooter,
            (#[trigger] targets[j])@,
        )
}

/// The target that [`is_closest`] singles out; meaningful where there is a target.
pub open spec fn closest_target(shooter: Point3, targets: Seq<Vec3>) -> Vec3 {
    targets[choose|i: int| is_closest(shooter, targets, i)]
}

/// Every target lies in the world.
pub open spec fn all_in_world(points: Seq<Vec3>) -> bool {
    forall|i: int| 0 <= i < points.len() ==> (#[trigger] points[i]).in_world()
}

/// Tests [`all_in_world`].
pub fn are_in_world(points: &Vec<Vec3>) -> (ok: bool)
    ensures
        ok == all_in_world(points@),
{
    let mut i: usize = 0;
    while i < points.len()
        invariant
            i <= points.len(),
            forall|j: int| 0 <= j < i ==> (#[trigger] points[j]).in_world(),
        decreases points.len() - i,
    {
        if !points[i].is_in_world() {
            return false;
        }
        i += 1;
    }
    true
}

/// Picks the enemy nearest to the player by Euclidean distance, the first one met
/// among equally near ones; `None` exactly when there is no enemy.
pub fn closest_enemy(player: &Vec3, enemies: &Vec<Vec3>) -> (found: Option<usize>)
    requires
        player.in_world(),
        all_in_world(enemies@),
    ensures
        found is None <==> enemies.len() == 0,
        found matches Some(i) ==> is_closest(player@, enemies@, i as int) && enemies[i as int]
            == closest_target(player@, enemies@),
{
    let mut closest: Option<usize> = None;
    let mut distance: i128 = 0;
    let mut i: usize = 0;
    while i < enemies.len()
        invariant
            i <= enemies.len(),
            player.in_world(),
            all_in_world(enemies@),
            closest is None <==> i == 0,
            closest matches Some(k) ==> {
                &&& k < i
                &&& distance == squared_distance(player@, enemies[k as int]@)
                &&& forall|j: int|
                    0 <= j < i ==> distance <= squared_distance(player@, (#[trigger] enemies[j])@)
                &&& forall|j: int|
                    0 <= j < k ==> distance < squared_distance(player@, (#[trigger] enemies[j])@)
            },
        decreases enemies.len() - i,
    {
        let here: i128 = player.distance_squared(&enemies[i]);
        if closest.is_none() || here < distance {
            closest = Some(i);
            distance = here;
        }
        i += 1;
    }
    proof {
        if let Some(k) = closest {
            let chosen = choose|c: int| is_closest(player@, enemies@, c);
            lemma_closest_is_unique(player@, enemies@, k as int, chosen);
        }
    }
    closest
}

/// At most one target is the closest: the selector's choice is determined by the
/// positions alone.
pub proof fn lemma_closest_is_unique(shooter: Point3, targets: Seq<Vec3>, i: int, j: int)
    requires
        is_closest(shooter, targets, i),
        is_closest(shooter, targets, j),
    ensures
        i == j,
{
    let di = squared_distance(shooter, targets[i]@);
    let dj = squared_distance(shooter, targets[j]@);
    if i < j {
        assert(dj < di && di <= dj);
    } else if j < i {
        assert(di < dj && dj <= di);
    }
}

} // verus!
