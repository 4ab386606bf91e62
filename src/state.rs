use vstd::prelude::*;

use crate::geometry::Coord;
use crate::road_index::RoadIndex;
use crate::transform::Transform;

verus! {

/// The navigation session: the trail of position fixes with their
/// timestamps, the road index, the view transform, and a pending redraw flag.
/// Callers that share it between threads put it behind one lock, so a fix and
/// its timestamp are always appended together.
pub struct State {
    user_location: Vec<Coord>,
    location_timestamp: Vec<u64>,
    roads: RoadIndex,
    transform: Transform,
    repaint: bool,
}

impl State {
    /// Trail and timestamps have one entry per fix; index and transform are
    /// well formed.
    pub open spec fn wf(&self) -> bool {
        &&& self.trail().len() == self.timestamps().len()
        &&& self.index().wf()
        &&& self.view().wf()
    }

    pub closed spec fn index(&self) -> RoadIndex {
        self.roads
    }

    pub closed spec fn view(&self) -> Transform {
        self.transform
    }

    pub closed spec fn trail(&self) -> Seq<Coord> {
        self.user_location@
    }

    pub closed spec fn timestamps(&self) -> Seq<u64> {
        self.location_timestamp@
    }

    pub closed spec fn repaint_pending(&self) -> bool {
        self.repaint
    }

    /// An empty session: no fix, the given roads, the default transform.
    pub fn new_session(roads: RoadIndex) -> (r: State)
        requires
            roads.wf(),
        ensures
            r.wf(),
            r.trail() == Seq::<Coord>::empty(),
            r.timestamps() == Seq::<u64>::empty(),
            r.index()@ == roads@,
            r.view().is_initial(),
            !r.repaint_pending(),
    {
        State {
            user_location: Vec::new(),
            location_timestamp: Vec::new(),
            roads,
            transform: Transform::new(),
            repaint: false,
        }
    }

    /// A session preloaded with one sample road in Aalborg.
    pub fn new() -> (r: State)
        ensures
            r.wf(),
            r.trail() == Seq::<Coord>::empty(),
            r.timestamps() == Seq::<u64>::empty(),
            r.index()@.len() == 1,
            r.index()@[0] == seq![
                Coord { x: 99_908_760, y: 570_119_080 },
                Coord { x: 99_918_200, y: 570_127_040 },
                Coord { x: 99_917_760, y: 570_117_490 },
            ],
            r.view().is_initial(),
    {
        let mut roads = RoadIndex::new();
        let road = vec![
            Coord { x: 99_908_760, y: 570_119_080 },
            Coord { x: 99_918_200, y: 570_127_040 },
            Coord { x: 99_917_760, y: 570_117_490 },
        ];
        roads.insert(road);
        State::new_session(roads)
    }

    /// Appends a fix and its timestamp together, and asks for a redraw.
    pub fn add_point(&mut self, x: i32, y: i32, timestamp: u64)
        requires
            old(self).wf(),
        ensures
            final(self).wf(),
            final(self).trail() == old(self).trail().push(Coord { x, y }),
            final(self).timestamps() == old(self).timestamps().push(timestamp),
            final(self).repaint_pending(),
            final(self).index() == old(self).index(),
            final(self).view() == old(self).view(),
    {
        self.user_location.push(Coord { x, y });
        self.location_timestamp.push(timestamp);
        self.repaint = true;
    }

    /// Whether a redraw was asked for since the last call; clears the request.
    pub fn take_repaint_request(&mut self) -> (r: bool)
        ensures
            r == old(self).repaint_pending(),
            !final(self).repaint_pending(),
            final(self).trail() == old(self).trail(),
            final(self).timestamps() == old(self).timestamps(),
            final(self).index() == old(self).index(),
            final(self).view() == old(self).view(),
    {
        let r = self.repaint;
        self.repaint = false;
        r
    }

    /// The fixes, oldest first.
    pub fn user_location(&self) -> (r: &Vec<Coord>)
        ensures
            r@ == self.trail(),
    {
        &self.user_location
    }

    /// The timestamp of each fix, in milliseconds since the Unix epoch.
    pub fn location_timestamp(&self) -> (r: &Vec<u64>)
        ensures
            r@ == self.timestamps(),
    {
        &self.location_timestamp
    }

    /// The road index.
    pub fn roads(&self) -> (r: &RoadIndex)
        ensures
            *r == self.index(),
    {
        &self.roads
    }

    /// Adds a road to the index and returns its number.
    pub fn insert_road(&mut self, road: Vec<Coord>) -> (id: usize)
        requires
            old(self).wf(),
            road@.len() >= 1,
            old(self).index()@.len() < usize::MAX,
        ensures
            final(self).wf(),
            id == old(self).index()@.len(),
            final(self).index()@ == old(self).index()@.push(road@),
            final(self).trail() == old(self).trail(),
            final(self).timestamps() == old(self).timestamps(),
            final(self).view() == old(self).view(),
            final(self).repaint_pending() == old(self).repaint_pending(),
    {
        self.roads.insert(road)
    }

    /// The view transform.
    pub fn transform(&self) -> (r: Transform)
        ensures
            r == self.view(),
    {
        self.transform
    }

    /// Replaces the view transform.
    pub fn set_transform(&mut self, t: Transform)
        requires
            old(self).wf(),
            t.wf(),
        ensures
            final(self).wf(),
            final(self).view() == t,
            final(self).trail() == old(self).trail(),
            final(self).timestamps() == old(self).timestamps(),
            final(self).index() == old(self).index(),
            final(self).repaint_pending() == old(self).repaint_pending(),
    {
        self.transform = t;
    }

    /// The latest fix, if any.
    pub fn current(&self) -> (r: Option<Coord>)
        ensures
            self.trail().len() == 0 ==> r.is_none(),
            self.trail().len() > 0 ==> r == Some(self.trail().last()),
    {
        if self.user_location.len() == 0 {
            None
        } else {
            Some(self.user_location[self.user_location.len() - 1])
        }
    }
}

/// Fixes and timestamps stay paired: after appending fix `c` at time `t`
/// to a well-formed state, the entries at every position still belong together
/// and the new pair stands last.
pub proof fn lemma_fix_pairing(before: State, after: State, c: Coord, t: u64)
    requires
        before.wf(),
        after.trail() == before.trail().push(c),
        after.timestamps() == before.timestamps().push(t),
    ensures
        after.trail().len() == after.timestamps().len(),
        forall|i: int|
            0 <= i < before.trail().len() ==> after.trail()[i] == before.trail()[i]
                && #[trigger] after.timestamps()[i] == before.timestamps()[i],
        after.trail().last() == c && after.timestamps().last() == t,
{
}

} // verus!
