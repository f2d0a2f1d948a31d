//! Construction of the bounding volume hierarchy.
//!
//! The tree is built recursively from a flat geometry list: a random axis
//! is chosen, the geometries are sorted by the low corner of their
//! bounding boxes on that axis, the list is split at its midpoint and the
//! halves recurse; one or two geometries become a leaf node.  What is
//! proved: the built tree holds exactly the input geometries — none is
//! dropped, none duplicated, whatever axis sequence the randomness gives
//! — the root's cached box contains every input box, and the cached
//! boxes are nested node to node (see [`spec_bvh_boxes_nested`]).  The
//! numeric
//! boxes themselves come from the rendering front end, which alone can do
//! the floating-point box arithmetic; a missing box or an empty list is a
//! construction error, never a render-time failure.

use crate::aabb::{
    box_has_numbers, lemma_surrounding_contains_both, lemma_surrounding_has_numbers,
    spec_contains, spec_surrounding, surrounding, AxisAlignedBoundingBox,
};
use crate::geometry::{
    geometries_view, lemma_geometries_view_len, BoundingVolumeHierarchyNode, Geometry,
    GeometryError, GeometryView,
};
use crate::scalar::{normalize, sort_key};
use itertools::Itertools;
use vstd::prelude::*;
use vstd::seq_lib::lemma_multiset_commutative;

verus! {

/// One geometry waiting to be placed in the hierarchy, paired with its
/// bounding box over the shutter window.
#[derive(Debug, PartialEq)]
pub struct BvhItem {
    pub geometry: Geometry,
    pub bbox: AxisAlignedBoundingBox,
}

/// Ghost image of a [`BvhItem`].
pub ghost struct BvhItemView {
    pub geometry: GeometryView,
    pub bbox: AxisAlignedBoundingBox,
}

impl View for BvhItem {
    type V = BvhItemView;

    open spec fn view(&self) -> BvhItemView {
        BvhItemView { geometry: self.geometry@, bbox: self.bbox }
    }
}

/// The ghost images of a sequence of items, elementwise.
pub open spec fn items_view(s: Seq<BvhItem>) -> Seq<BvhItemView> {
    Seq::new(s.len(), |i: int| s[i]@)
}

/// The geometries of a sequence of items, in order.
pub open spec fn items_geometries(s: Seq<BvhItemView>) -> Seq<GeometryView> {
    s.map_values(|item: BvhItemView| item.geometry)
}

/// An item is placeable when its box has no NaN corner and its geometry
/// is not itself a hierarchy node.
pub open spec fn spec_item_placeable(item: BvhItemView) -> bool {
    box_has_numbers(item.bbox) && !(item.geometry is Bvh)
}

/// The sort key of an item on the given axis: the total-order key of the
/// low corner of its box on that axis.
pub open spec fn spec_item_key(item: BvhItemView, axis: u8) -> u64 {
    if axis == 0 {
        sort_key(normalize(item.bbox.min.x))
    } else if axis == 1 {
        sort_key(normalize(item.bbox.min.y))
    } else {
        sort_key(normalize(item.bbox.min.z))
    }
}

/// Executable form of [`spec_item_key`].
pub(crate) fn item_key(item: &BvhItem, axis: u8) -> (r: u64)
    ensures
        r == spec_item_key(item@, axis),
{
    let component = if axis == 0 {
        item.bbox.min.x
    } else if axis == 1 {
        item.bbox.min.y
    } else {
        item.bbox.min.z
    };
    component.order_key()
}

/// Relies on rand::random: one arbitrary byte from the thread-local
/// generator; the caller reduces it to an axis choice.
#[verifier::external_body]
fn random_byte() -> u8 {
    rand::random::<u8>()
}

/// Relies on itertools::sorted_by_key (a stable sort): the result holds
/// exactly the given items, ordered by ascending key.
#[verifier::external_body]
fn sort_items_by_key(items: Vec<BvhItem>, axis: u8) -> (r: Vec<BvhItem>)
    ensures
        r@.len() == items@.len(),
        items_view(r@).to_multiset() == items_view(items@).to_multiset(),
        items_geometries(items_view(r@)).to_multiset() == items_geometries(
            items_view(items@),
        ).to_multiset(),
        forall|i: int, j: int|
            0 <= i <= j < r@.len() ==> spec_item_key(items_view(r@)[i], axis) <= spec_item_key(
                items_view(r@)[j],
                axis,
            ),
{
    items.into_iter().sorted_by_key(|item| item_key(item, axis)).collect()
}

/// The geometries hanging off the leaves of a hierarchy: what a traversal
/// can reach.  A non-hierarchy geometry is its own single leaf.
pub open spec fn spec_bvh_leaves(g: GeometryView) -> Seq<GeometryView>
    decreases g,
{
    match g {
        GeometryView::Bvh { left, right, .. } => {
            let left_leaves = match left {
                Some(child) => spec_bvh_leaves(*child),
                None => Seq::empty(),
            };
            let right_leaves = match right {
                Some(child) => spec_bvh_leaves(*child),
                None => Seq::empty(),
            };
            left_leaves + right_leaves
        },
        _ => seq![g],
    }
}

/// Every hierarchy node's cached box bounds the nodes beneath it: a
/// child that is itself a hierarchy node has its cached box contained in
/// its parent's, recursively; and where both children are hierarchy
/// nodes the parent's cached box is exactly the surrounding box of
/// theirs.  (A leaf child's box is a construction input, not stored in
/// the tree; a node directly over leaves is the surrounding box of those
/// inputs, which the root-level containment clause of
/// [`BoundingVolumeHierarchyNode::build`] covers.)
pub open spec fn spec_bvh_boxes_nested(g: GeometryView) -> bool
    decreases g,
{
    match g {
        GeometryView::Bvh { left, right, bounding_box } => {
            &&& (match left {
                Some(child) => spec_bvh_boxes_nested(*child) && ((*child) is Bvh
                    ==> spec_contains(bounding_box, (*child)->Bvh_bounding_box)),
                None => true,
            })
            &&& (match right {
                Some(child) => spec_bvh_boxes_nested(*child) && ((*child) is Bvh
                    ==> spec_contains(bounding_box, (*child)->Bvh_bounding_box)),
                None => true,
            })
            &&& (match (left, right) {
                (Some(l), Some(r)) => ((*l) is Bvh && (*r) is Bvh) ==> bounding_box
                    == spec_surrounding((*l)->Bvh_bounding_box, (*r)->Bvh_bounding_box),
                _ => true,
            })
        },
        _ => true,
    }
}

/// Every element of a sequence is in its multiset.
proof fn lemma_seq_element_in_multiset(s: Seq<BvhItemView>, i: int)
    requires
        0 <= i < s.len(),
    ensures
        s.to_multiset().contains(s[i]),
{
    broadcast use vstd::seq_lib::group_to_multiset_ensures;

    assert(s.contains(s[i]));
}

/// An element of a sequence's multiset stands somewhere in the sequence.
proof fn lemma_multiset_element_in_seq(s: Seq<BvhItemView>, item: BvhItemView) -> (i: int)
    requires
        s.to_multiset().contains(item),
    ensures
        0 <= i < s.len() && s[i] == item,
{
    broadcast use vstd::seq_lib::group_to_multiset_ensures;

    assert(s.contains(item));
    choose|i: int| 0 <= i < s.len() && s[i] == item
}

impl BoundingVolumeHierarchyNode {
    /// Builds the hierarchy over `geometries`, where `boxes[i]` is what
    /// the front end computed as the bounding box of `geometries[i]` over
    /// the shutter window.  An empty list or a missing box is a
    /// construction error.  On success the tree's leaves hold exactly the
    /// input geometries and the root box contains every input box.
    #[verifier::loop_isolation(false)]
    pub fn build(geometries: Vec<Geometry>, boxes: Vec<Option<AxisAlignedBoundingBox>>) -> (r:
        Result<Geometry, GeometryError>)
        requires
            boxes@.len() == geometries@.len(),
            forall|i: int|
                0 <= i < boxes@.len() ==> (#[trigger] boxes@[i] matches Some(b)
                    ==> box_has_numbers(b)),
            forall|i: int| 0 <= i < geometries@.len() ==> !(geometries_view(geometries@)[i] is Bvh),
        ensures
            match r {
                Ok(root) => {
                    &&& geometries@.len() > 0
                    &&& forall|i: int| 0 <= i < boxes@.len() ==> (#[trigger] boxes@[i]) is Some
                    &&& root@ is Bvh
                    &&& spec_bvh_leaves(root@).to_multiset() == geometries_view(
                        geometries@,
                    ).to_multiset()
                    &&& forall|i: int|
                        0 <= i < boxes@.len() ==> (#[trigger] boxes@[i] matches Some(b)
                            ==> spec_contains(root@->Bvh_bounding_box, b))
                    &&& spec_bvh_boxes_nested(root@)
                },
                Err(e) => {
                    ||| (e == GeometryError::EmptyBvh() && geometries@.len() == 0)
                    ||| (e == GeometryError::MissingBoundingBox() && exists|i: int|
                        0 <= i < boxes@.len() && (#[trigger] boxes@[i]) is None)
                },
            },
    {
        proof {
            lemma_geometries_view_len(geometries@);
        }
        let n = geometries.len();
        if n == 0 {
            return Err(GeometryError::EmptyBvh());
        }
        let mut items: Vec<BvhItem> = Vec::new();
        let mut i: usize = 0;
        while i < n
            invariant
                i <= n,
                items@.len() == i,
                forall|j: int| 0 <= j < i ==> (#[trigger] boxes@[j]) is Some,
                forall|j: int|
                    0 <= j < i ==> (#[trigger] items@[j])@.geometry == geometries_view(
                        geometries@,
                    )[j],
                forall|j: int| 0 <= j < i ==> (#[trigger] items@[j])@.bbox == boxes@[j]->Some_0,
            decreases n - i,
        {
            match &boxes[i] {
                None => {
                    return Err(GeometryError::MissingBoundingBox());
                },
                Some(b) => {
                    items.push(BvhItem { geometry: geometries[i].duplicate(), bbox: *b });
                },
            }
            i = i + 1;
        }
        let ghost item_views = items_view(items@);
        proof {
            assert(items_geometries(item_views) =~= geometries_view(geometries@));
            assert forall|iv: BvhItemView| #[trigger]
                item_views.to_multiset().contains(iv) implies spec_item_placeable(iv) by {
                let j = lemma_multiset_element_in_seq(item_views, iv);
            }
        }
        let built = build_items(items);
        let (root, root_box) = built;
        proof {
            assert forall|i: int|
                0 <= i < boxes@.len() implies (#[trigger] boxes@[i] matches Some(b)
                ==> spec_contains(root@->Bvh_bounding_box, b)) by {
                if boxes@[i] is Some {
                    lemma_seq_element_in_multiset(item_views, i);
                }
            }
        }
        Ok(root)
    }
}

/// Recursively builds a hierarchy node over at least one placeable item,
/// returning the node and its cached box.
#[verifier::rlimit(60)]
fn build_items(items: Vec<BvhItem>) -> (r: (Geometry, AxisAlignedBoundingBox))
    requires
        items@.len() >= 1,
        forall|iv: BvhItemView| #[trigger]
            items_view(items@).to_multiset().contains(iv) ==> spec_item_placeable(iv),
    ensures
        r.0@ is Bvh,
        r.0@->Bvh_bounding_box == r.1,
        box_has_numbers(r.1),
        spec_bvh_leaves(r.0@).to_multiset() == items_geometries(items_view(items@)).to_multiset(),
        spec_bvh_boxes_nested(r.0@),
        forall|iv: BvhItemView| #[trigger]
            items_view(items@).to_multiset().contains(iv) ==> spec_contains(r.1, iv.bbox),
    decreases items@.len(),
{
    let ghost original_views = items_view(items@);
    let axis = random_byte() % 3;
    let mut items = sort_items_by_key(items, axis);
    let ghost sorted_views = items_view(items@);
    proof {
        assert forall|iv: BvhItemView| #[trigger]
            sorted_views.to_multiset().contains(iv) implies spec_item_placeable(iv) by {
            assert(original_views.to_multiset().contains(iv));
        }
    }

    let size = items.len();
    let built: (Geometry, AxisAlignedBoundingBox) = if size == 1 {
        let item = items.remove(0);
        let bounding_box = item.bbox;
        proof {
            lemma_seq_element_in_multiset(sorted_views, 0);
        }
        let node = BoundingVolumeHierarchyNode {
            left: Some(Box::new(item.geometry)),
            right: None,
            bounding_box,
        };
        let root = Geometry::Bvh(Box::new(node));
        proof {
            assert(spec_item_placeable(sorted_views[0]));
            let ghost child = item.geometry@;
            assert(item@ == sorted_views[0]);
            assert(!(child is Bvh));
            assert(spec_bvh_boxes_nested(child));
            assert(spec_bvh_boxes_nested(root@));
            assert(root@ == (GeometryView::Bvh {
                left: Some(Box::new(child)),
                right: None,
                bounding_box,
            }));
            assert(spec_bvh_leaves(root@) == spec_bvh_leaves(child) + Seq::<GeometryView>::empty());
            assert(spec_bvh_leaves(child) =~= seq![child]);
            assert(spec_bvh_leaves(root@) =~= items_geometries(sorted_views));
            assert forall|iv: BvhItemView| #[trigger]
                sorted_views.to_multiset().contains(iv) implies spec_contains(
                bounding_box,
                iv.bbox,
            ) by {
                let j = lemma_multiset_element_in_seq(sorted_views, iv);
            }
        }
        (root, bounding_box)
    } else if size == 2 {
        let second = items.remove(1);
        let first = items.remove(0);
        proof {
            lemma_seq_element_in_multiset(sorted_views, 0);
            lemma_seq_element_in_multiset(sorted_views, 1);
        }
        let bounding_box = surrounding(&first.bbox, &second.bbox);
        proof {
            lemma_surrounding_has_numbers(first.bbox, second.bbox);
            lemma_surrounding_contains_both(first.bbox, second.bbox);
        }
        let node = BoundingVolumeHierarchyNode {
            left: Some(Box::new(first.geometry)),
            right: Some(Box::new(second.geometry)),
            bounding_box,
        };
        let root = Geometry::Bvh(Box::new(node));
        proof {
            assert(spec_item_placeable(sorted_views[0]));
            assert(spec_item_placeable(sorted_views[1]));
            let ghost first_child = first.geometry@;
            let ghost second_child = second.geometry@;
            assert(first@ == sorted_views[0]);
            assert(second@ == sorted_views[1]);
            assert(!(first_child is Bvh));
            assert(!(second_child is Bvh));
            assert(spec_bvh_boxes_nested(first_child));
            assert(spec_bvh_boxes_nested(second_child));
            assert(spec_bvh_boxes_nested(root@));
            assert(root@ == (GeometryView::Bvh {
                left: Some(Box::new(first_child)),
                right: Some(Box::new(second_child)),
                bounding_box,
            }));
            assert(spec_bvh_leaves(root@) == spec_bvh_leaves(first_child) + spec_bvh_leaves(
                second_child,
            ));
            assert(spec_bvh_leaves(first_child) =~= seq![first_child]);
            assert(spec_bvh_leaves(second_child) =~= seq![second_child]);
            assert(spec_bvh_leaves(root@) =~= items_geometries(sorted_views));
            assert forall|iv: BvhItemView| #[trigger]
                sorted_views.to_multiset().contains(iv) implies spec_contains(
                bounding_box,
                iv.bbox,
            ) by {
                let j = lemma_multiset_element_in_seq(sorted_views, iv);
            }
        }
        (root, bounding_box)
    } else {
        let mid = size / 2;
        let right_items = items.split_off(mid);
        let left_items = items;
        let ghost left_views = items_view(left_items@);
        let ghost right_views = items_view(right_items@);
        proof {
            broadcast use vstd::multiset::group_multiset_axioms;

            assert(left_views + right_views =~= sorted_views);
            lemma_multiset_commutative(left_views, right_views);
            assert(sorted_views.to_multiset() == left_views.to_multiset().add(
                right_views.to_multiset(),
            ));
            assert forall|iv: BvhItemView| #[trigger]
                left_views.to_multiset().contains(iv) implies spec_item_placeable(iv) by {
                assert(sorted_views.to_multiset().count(iv) >= left_views.to_multiset().count(iv));
                assert(sorted_views.to_multiset().contains(iv));
            }
            assert forall|iv: BvhItemView| #[trigger]
                right_views.to_multiset().contains(iv) implies spec_item_placeable(iv) by {
                assert(sorted_views.to_multiset().count(iv) >= right_views.to_multiset().count(
                    iv,
                ));
                assert(sorted_views.to_multiset().contains(iv));
            }
        }
        let left_built = build_items(left_items);
        let right_built = build_items(right_items);
        let (left_tree, left_box) = left_built;
        let (right_tree, right_box) = right_built;
        let bounding_box = surrounding(&left_box, &right_box);
        proof {
            lemma_surrounding_has_numbers(left_box, right_box);
            lemma_surrounding_contains_both(left_box, right_box);
        }
        let node = BoundingVolumeHierarchyNode {
            left: Some(Box::new(left_tree)),
            right: Some(Box::new(right_tree)),
            bounding_box,
        };
        let root = Geometry::Bvh(Box::new(node));
        proof {
            broadcast use vstd::multiset::group_multiset_axioms;

            assert(root@->Bvh_left->Some_0 == Box::new(left_tree@));
            assert(root@->Bvh_right->Some_0 == Box::new(right_tree@));
            assert(left_tree@->Bvh_bounding_box == left_box);
            assert(right_tree@->Bvh_bounding_box == right_box);
            assert(bounding_box == spec_surrounding(left_box, right_box));
            assert(spec_bvh_boxes_nested(root@));
            let left_geoms = items_geometries(left_views);
            let right_geoms = items_geometries(right_views);
            assert(spec_bvh_leaves(root@) == spec_bvh_leaves(left_tree@) + spec_bvh_leaves(
                right_tree@,
            ));
            lemma_multiset_commutative(spec_bvh_leaves(left_tree@), spec_bvh_leaves(right_tree@));
            lemma_multiset_commutative(left_geoms, right_geoms);
            assert(left_geoms + right_geoms =~= items_geometries(sorted_views));
            assert forall|iv: BvhItemView| #[trigger]
                sorted_views.to_multiset().contains(iv) implies spec_contains(
                bounding_box,
                iv.bbox,
            ) by {
                assert(sorted_views.to_multiset().count(iv) == left_views.to_multiset().count(iv)
                    + right_views.to_multiset().count(iv));
                if left_views.to_multiset().count(iv) > 0 {
                    assert(left_views.to_multiset().contains(iv));
                } else {
                    assert(right_views.to_multiset().contains(iv));
                }
            }
        }
        (root, bounding_box)
    };
    built
}

} // verus!
