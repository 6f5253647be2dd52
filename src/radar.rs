use vstd::prelude::*;
use crate::game::Ship;
use crate::math::{Vec3i, in_cube, is_closest_visible, finite_cube_point_to_closest_visible_location};

verus! {

/// The radar: where the other ships are, seen from the local one.
#[derive(Clone, Copy, Debug, PartialEq, Eq, Structural)]
pub struct RadarPlugin;

/// Index of the first ship whose handle is `h`, if any.
pub open spec fn ship_of(ships: Seq<Ship>, h: usize) -> Option<int> {
    if exists|i: int| 0 <= i < ships.len() && (#[trigger] ships[i]).player.handle == h {
        Some(choose|i: int| 0 <= i < ships.len() && (#[trigger] ships[i]).player.handle == h && forall|j: int| 0 <= j < i ==> ships[j].player.handle != h)
    } else {
        None
    }
}

/// The ship the radar is centred on: that of the first local handle that has
/// a ship, its first one.
pub open spec fn anchor(ships: Seq<Ship>, local: Seq<usize>) -> Option<int>
    decreases local.len(),
{
    if local.len() == 0 {
        None
    } else {
        match anchor(ships, local.drop_last()) {
            Some(i) => Some(i),
            None => ship_of(ships, local.last()),
        }
    }
}

pub open spec fn remote(s: Ship, local: Seq<usize>) -> bool {
    !local.contains(s.player.handle)
}

impl RadarPlugin {
    /// For every ship that no local player controls, in order, its offset
    /// from the local ship to the nearest place it is visible across the
    /// cube's wrap. None when no local player has a ship: the radar is
    /// cleared.
    pub fn contacts(ships: &Vec<Ship>, local: &Vec<usize>) -> (r: Option<Vec<Vec3i>>)
        requires
            forall|i: int| 0 <= i < ships@.len() ==> in_cube(#[trigger] ships@[i].transform.translation),
        ensures
            r is None <==> anchor(ships@, local@) is None,
            r matches Some(v) ==> {
                let a = ships@[anchor(ships@, local@)->Some_0].transform.translation;
                let others = ships@.filter(|s: Ship| remote(s, local@));
                &&& v@.len() == others.len()
                &&& forall|k: int|
                    0 <= k < v@.len() ==> is_closest_visible(
                        a,
                        others[k].transform.translation,
                        Vec3i { x: (a.x + v@[k].x) as i64, y: (a.y + v@[k].y) as i64, z: (a.z + v@[k].z) as i64 },
                    )
            },
    {
        let found = Self::find_anchor(ships, local);
        let ai = match found {
            Some(i) => i,
            None => {
                return None;
            },
        };
        let a = ships[ai].transform.translation;
        let ghost others_pred = |s: Ship| remote(s, local@);
        let mut out: Vec<Vec3i> = Vec::new();
        let ghost mut seen: Seq<Ship> = Seq::empty();
        let mut i: usize = 0;
        while i < ships.len()
            invariant
                0 <= i <= ships@.len(),
                forall|k: int| 0 <= k < ships@.len() ==> in_cube(#[trigger] ships@[k].transform.translation),
                in_cube(a),
                a == ships@[ai as int].transform.translation,
                others_pred == (|s: Ship| remote(s, local@)),
                seen == ships@.subrange(0, i as int).filter(others_pred),
                out@.len() == seen.len(),
                forall|k: int|
                    0 <= k < out@.len() ==> is_closest_visible(
                        a,
                        seen[k].transform.translation,
                        Vec3i { x: (a.x + out@[k].x) as i64, y: (a.y + out@[k].y) as i64, z: (a.z + out@[k].z) as i64 },
                    ),
            decreases ships@.len() - i,
        {
            let s = ships[i];
            proof {
                let sub = ships@.subrange(0, i as int);
                assert(ships@.subrange(0, i as int + 1) =~= sub.push(s));
                sub.lemma_filter_push(s, others_pred);
            }
            let is_local = is_local_handle(local, s.player.handle);
            if !is_local {
                assert(in_cube(ships@[i as int].transform.translation));
                let p = finite_cube_point_to_closest_visible_location(a, s.transform.translation);
                let d = Vec3i { x: p.x - a.x, y: p.y - a.y, z: p.z - a.z };
                proof {
                    assert(Vec3i { x: (a.x + d.x) as i64, y: (a.y + d.y) as i64, z: (a.z + d.z) as i64 } == p);
                }
                out.push(d);
                proof {
                    seen = seen.push(s);
                }
            }
            i = i + 1;
        }
        assert(ships@.subrange(0, ships@.len() as int) =~= ships@);
        Some(out)
    }

    fn find_anchor(ships: &Vec<Ship>, local: &Vec<usize>) -> (r: Option<usize>)
        ensures
            r matches Some(i) ==> anchor(ships@, local@) == Some(i as int) && i < ships@.len(),
            r is None ==> anchor(ships@, local@) is None,
    {
        let mut j: usize = 0;
        while j < local.len()
            invariant
                0 <= j <= local@.len(),
                anchor(ships@, local@.subrange(0, j as int)) is None,
            decreases local@.len() - j,
        {
            let h = local[j];
            let ghost sub = local@.subrange(0, j as int + 1);
            assert(sub.drop_last() =~= local@.subrange(0, j as int));
            let mut i: usize = 0;
            while i < ships.len()
                invariant
                    0 <= i <= ships@.len(),
                    0 <= j < local@.len(),
                    h == local@[j as int],
                    sub == local@.subrange(0, j as int + 1),
                    sub.drop_last() == local@.subrange(0, j as int),
                    anchor(ships@, local@.subrange(0, j as int)) is None,
                    forall|k: int| 0 <= k < i ==> ships@[k].player.handle != h,
                decreases ships@.len() - i,
            {
                if ships[i].player.handle == h {
                    assert(ship_of(ships@, h) == Some(i as int)) by {
                        let c = choose|c: int| 0 <= c < ships@.len() && (#[trigger] ships@[c]).player.handle == h && forall|q: int| 0 <= q < c ==> ships@[q].player.handle != h;
                        assert(exists|c: int| 0 <= c < ships@.len() && (#[trigger] ships@[c]).player.handle == h && forall|q: int| 0 <= q < c ==> ships@[q].player.handle != h) by {
                            assert(ships@[i as int].player.handle == h);
                        }
                        if c < i {
                        } else if c > i {
                            assert(ships@[i as int].player.handle != h);
                        }
                    }
                    assert(anchor(ships@, sub) == Some(i as int));
                    assert(anchor(ships@, local@) == Some(i as int)) by {
                        lemma_anchor_extends(ships@, local@, j as int + 1);
                    }
                    return Some(i);
                }
                i = i + 1;
            }
            assert(ship_of(ships@, h) is None);
            j = j + 1;
        }
        assert(local@.subrange(0, local@.len() as int) =~= local@);
        None
    }
}

fn is_local_handle(local: &Vec<usize>, h: usize) -> (r: bool)
    ensures
        r == local@.contains(h),
{
    let mut j: usize = 0;
    while j < local.len()
        invariant
            0 <= j <= local@.len(),
            forall|k: int| 0 <= k < j ==> local@[k] != h,
        decreases local@.len() - j,
    {
        if local[j] == h {
            assert(local@[j as int] == h);
            return true;
        }
        j = j + 1;
    }
    false
}

proof fn lemma_anchor_extends(ships: Seq<Ship>, local: Seq<usize>, n: int)
    requires
        0 <= n <= local.len(),
        anchor(ships, local.subrange(0, n)) is Some,
    ensures
        anchor(ships, local) == anchor(ships, local.subrange(0, n)),
    decreases local.len() - n,
{
    if n < local.len() {
        let sub = local.subrange(0, n + 1);
        assert(sub.drop_last() =~= local.subrange(0, n));
        lemma_anchor_extends(ships, local, n + 1);
    } else {
        assert(local.subrange(0, n) =~= local);
    }
}

} // verus!
