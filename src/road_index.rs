use vstd::prelude::*;

use rstar::primitives::{GeomWithData, Rectangle};
use rstar::{AABB, RTree};

use crate::geometry::{Coord, Rect, bbox_of, bounding_box};

verus! {

/// An R-tree of rectangles, each tagged with a road number.
#[verifier::external_body]
pub struct BoxTree {
    tree: RTree<GeomWithData<Rectangle<[i128; 2]>, usize>>,
}

/// The (rectangle, road number) entries that a `BoxTree` holds.
pub uninterp spec fn tree_entries(t: BoxTree) -> Set<(Rect, usize)>;

/// Relies on rstar::RTree::new: a new tree holds no entry.
#[verifier::external_body]
fn tree_new() -> (r: BoxTree)
    ensures
        tree_entries(r) == Set::<(Rect, usize)>::empty(),
{
    BoxTree { tree: RTree::new() }
}

/// Relies on rstar::RTree::insert and Rectangle::from_corners: the tree then
/// also holds the rectangle with corners (min_x, min_y) and (max_x, max_y),
/// tagged with `id`. The tree works out areas and perimeters of its boxes in
/// `i128`; bounds within `i32` keep those from overflowing.
#[verifier::external_body]
fn tree_insert(t: &mut BoxTree, bbox: Rect, id: usize)
    requires
        bbox.wf(),
        bbox.in_coord_range(),
    ensures
        tree_entries(*final(t)) == tree_entries(*old(t)).insert((bbox, id)),
{
    let rect = Rectangle::from_corners([bbox.min_x, bbox.min_y], [bbox.max_x, bbox.max_y]);
    t.tree.insert(GeomWithData::new(rect, id));
}

/// Relies on rstar::RTree::locate_in_envelope_intersecting: it yields the
/// entries whose rectangle shares a point with `q` (AABB::intersects, bounds
/// included), and each tag is taken out.
#[verifier::external_body]
fn tree_query(t: &BoxTree, q: Rect) -> (r: Vec<usize>)
    requires
        q.wf(),
    ensures
        r@.to_set() == Set::new(|id: usize| exists|b: Rect| #[trigger] tree_entries(*t).contains((b, id)) && b.meets(q)),
{
    let envelope = AABB::from_corners([q.min_x, q.min_y], [q.max_x, q.max_y]);
    t.tree.locate_in_envelope_intersecting(&envelope).map(|g| g.data).collect()
}

/// Roads (non-empty line-strings) indexed by their bounding boxes. A road is
/// named by its number: the order in which it was inserted.
pub struct RoadIndex {
    roads: Vec<Vec<Coord>>,
    tree: BoxTree,
}

impl RoadIndex {
    /// The roads, in order of insertion.
    pub closed spec fn view(&self) -> Seq<Seq<Coord>> {
        self.roads@.map_values(|r: Vec<Coord>| r@)
    }

    /// Every road is non-empty and the tree holds exactly one entry per road:
    /// its number with its bounding box.
    pub closed spec fn wf(&self) -> bool {
        &&& forall|i: int| 0 <= i < self.roads@.len() ==> #[trigger] self.roads@[i]@.len() >= 1
        &&& tree_entries(self.tree) == Set::new(
            |e: (Rect, usize)| e.1 < self.roads@.len() && e.0 == bbox_of(self.roads@[e.1 as int]@),
        )
    }

    pub fn new() -> (r: RoadIndex)
        ensures
            r.wf(),
            r@ == Seq::<Seq<Coord>>::empty(),
    {
        let r = RoadIndex { roads: Vec::new(), tree: tree_new() };
        assert(tree_entries(r.tree) =~= Set::new(
            |e: (Rect, usize)| e.1 < r.roads@.len() && e.0 == bbox_of(r.roads@[e.1 as int]@),
        ));
        assert(r@ =~= Seq::<Seq<Coord>>::empty());
        r
    }

    pub fn len(&self) -> (r: usize)
        ensures
            r == self@.len(),
    {
        self.roads.len()
    }

    /// Adds a road and returns its number.
    pub fn insert(&mut self, road: Vec<Coord>) -> (id: usize)
        requires
            old(self).wf(),
            road@.len() >= 1,
            old(self)@.len() < usize::MAX,
        ensures
            final(self).wf(),
            id == old(self)@.len(),
            final(self)@ == old(self)@.push(road@),
    {
        let bbox = bounding_box(&road);
        let id = self.roads.len();
        let ghost old_roads = self.roads@;
        let ghost road_seq = road@;
        tree_insert(&mut self.tree, bbox, id);
        self.roads.push(road);
        proof {
            assert(self.roads@ == old_roads.push(self.roads@[id as int]));
            assert(self.roads@[id as int]@ == road_seq);
            assert forall|i: int| 0 <= i < old_roads.len() implies self.roads@[i] == old_roads[i] by {}
            assert(tree_entries(self.tree) =~= Set::new(
                |e: (Rect, usize)|
                    e.1 < self.roads@.len() && e.0 == bbox_of(self.roads@[e.1 as int]@),
            ));
            assert(self@ =~= old(self)@.push(road_seq));
        }
        id
    }

    /// The line-string of road `id`.
    pub fn geometry(&self, id: usize) -> (r: &Vec<Coord>)
        requires
            id < self@.len(),
        ensures
            r@ == self@[id as int],
    {
        &self.roads[id]
    }

    /// The numbers of the roads whose bounding box shares a point with `rect`
    /// (borders count), in no particular order.
    pub fn query(&self, rect: &Rect) -> (r: Vec<usize>)
        requires
            self.wf(),
            rect.wf(),
        ensures
            forall|id: usize|
                #![trigger r@.contains(id)]
                r@.contains(id) <==> (id < self@.len() && bbox_of(self@[id as int]).meets(*rect)),
            (forall|i: int| 0 <= i < self@.len() ==> !bbox_of(#[trigger] self@[i]).meets(*rect))
                ==> r@.len() == 0,
    {
        let r = tree_query(&self.tree, *rect);
        proof {
            assert forall|id: usize| r@.contains(id) <==> #[trigger] r@.to_set().contains(id) by {}
            assert forall|id: usize|
                #![trigger r@.contains(id)]
                r@.contains(id) <==> (id < self@.len() && bbox_of(self@[id as int]).meets(*rect)) by {
                if id < self@.len() && bbox_of(self@[id as int]).meets(*rect) {
                    let b = bbox_of(self@[id as int]);
                    assert(self@[id as int] == self.roads@[id as int]@);
                    assert(tree_entries(self.tree).contains((b, id)));
                    assert(r@.to_set().contains(id));
                }
                if r@.contains(id) {
                    assert(r@.to_set().contains(id));
                    let b = choose|b: Rect| #[trigger]
                        tree_entries(self.tree).contains((b, id)) && b.meets(*rect);
                    assert(id < self.roads@.len());
                    assert(self@[id as int] == self.roads@[id as int]@);
                }
            }
            if r@.len() > 0 {
                assert(r@.contains(r@[0]));
            }
        }
        r
    }
}

} // verus!
