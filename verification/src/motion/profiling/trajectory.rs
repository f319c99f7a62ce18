//! A precomputed path, sampled by the distance travelled along it.

use vstd::prelude::*;
use crate::pose::Vec2;

verus! {

/// One sample of a trajectory.
#[derive(Clone, Copy, Debug, PartialEq, Eq)]
pub struct ProfilePoint {
    /// Distance from the start of the path, along the path.
    pub distance: i64,
    pub position: Vec2<i64>,
    pub heading: i64,
    pub linear_velocity: i64,
    pub angular_velocity: i64,
}

/// Samples in the order in which the robot meets them.
pub struct Trajectory {
    pub profile: Vec<ProfilePoint>,
}

/// The samples are in order of distance.
pub open spec fn ascending(profile: Seq<ProfilePoint>) -> bool {
    forall|i: int, j: int| 0 <= i <= j < profile.len() ==> profile[i].distance <= profile[j].distance
}

/// `i` is the place of the sample for `distance`: the first sample at or
/// beyond that distance, or the last sample where the path is shorter.
pub open spec fn is_place(profile: Seq<ProfilePoint>, distance: i64, i: int) -> bool {
    &&& 0 <= i < profile.len()
    &&& forall|j: int| 0 <= j < i ==> profile[j].distance < distance
    &&& (i == profile.len() - 1 || profile[i].distance >= distance)
}

impl Trajectory {
    /// A trajectory has a sample, and its samples are in order.
    pub open spec fn wf(&self) -> bool {
        self.profile@.len() > 0 && ascending(self.profile@)
    }

    /// A trajectory of the given samples, if there is one and they are in
    /// order of distance.
    pub fn new(profile: Vec<ProfilePoint>) -> (r: Option<Self>)
        ensures
            r.is_some() <==> (profile@.len() > 0 && ascending(profile@)),
            r.is_some() ==> r.unwrap().profile@ == profile@ && r.unwrap().wf(),
    {
        if profile.len() == 0 {
            return None;
        }
        let mut i: usize = 1;
        while i < profile.len()
            invariant
                1 <= i <= profile.len(),
                forall|a: int, b: int| 0 <= a <= b < i ==> profile[a].distance <= profile[b].distance,
            decreases profile.len() - i,
        {
            if profile[i - 1].distance > profile[i].distance {
                assert(!ascending(profile@));
                return None;
            }
            i = i + 1;
        }
        Some(Trajectory { profile })
    }

    /// Number of samples.
    pub fn len(&self) -> (r: usize)
        ensures
            r == self.profile@.len(),
    {
        self.profile.len()
    }

    /// Place of the sample for `distance`.
    pub fn place(&self, distance: i64) -> (r: usize)
        requires
            self.wf(),
        ensures
            is_place(self.profile@, distance, r as int),
    {
        let mut i: usize = 0;
        while i + 1 < self.profile.len() && self.profile[i].distance < distance
            invariant
                0 <= i < self.profile.len(),
                forall|j: int| 0 <= j < i ==> self.profile[j].distance < distance,
            decreases self.profile.len() - i,
        {
            i = i + 1;
        }
        i
    }

    /// The sample for `distance`: the first one at or beyond it, or the
    /// last one where the path is shorter.
    pub fn at(&self, distance: i64) -> (r: ProfilePoint)
        requires
            self.wf(),
        ensures
            exists|i: int| is_place(self.profile@, distance, i) && r == self.profile@[i],
    {
        let i = self.place(distance);
        self.profile[i]
    }

    /// The sample that ends the path.
    pub fn last(&self) -> (r: ProfilePoint)
        requires
            self.wf(),
        ensures
            r == self.profile@[self.profile@.len() - 1],
    {
        self.profile[self.profile.len() - 1]
    }
}

/// A distance has one place only.
pub proof fn lemma_place_unique(profile: Seq<ProfilePoint>, distance: i64, i: int, j: int)
    requires
        is_place(profile, distance, i),
        is_place(profile, distance, j),
    ensures
        i == j,
{
}

/// In a trajectory in order, no sample at or beyond `distance` is nearer
/// to it than the one at its place.
pub proof fn lemma_place_nearest(profile: Seq<ProfilePoint>, distance: i64, i: int, k: int)
    requires
        ascending(profile),
        is_place(profile, distance, i),
        0 <= k < profile.len(),
        profile[k].distance >= distance,
    ensures
        distance <= profile[i].distance <= profile[k].distance,
{
}

} // verus!
