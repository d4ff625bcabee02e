//! Nearest-hit resolution and the shading decision.
//!
//! A ray is tested against every shape of a scene, in scene order. Each test
//! reports either no hit or the distance along the ray at which the shape is
//! met. From those reports this module picks the shape that is met first and
//! says what its material decides about the pixel.
//!
//! Every reported distance competes, a negative one too: a hit behind the
//! ray's origin is a hit, and being smaller than any hit in front it wins.
//! A caller that wants such hits ignored reports them as no hit.

use vstd::prelude::*;
use vstd::seq_lib::seq_to_set_is_finite;
use vstd::set_lib::{lemma_int_range, lemma_subset_equality, set_int_range};
use crate::color::{background, Color};
use crate::ieee::{order_key, total_order_key};

verus! {

/// The kind of surface a shape has.
#[derive(Clone, Copy, Debug, PartialEq, Eq, Structural)]
pub enum Geometry {
    Sphere,
    Triangle,
}

/// How a shape is coloured.
#[derive(Clone, Copy, Debug, PartialEq, Eq, Structural)]
pub enum Material {
    /// By the direction of the surface normal at the hit point.
    Normal,
    /// By one colour, wherever the shape is hit.
    Color(Color),
}

/// Whether a material can colour a surface of the given kind. Shading by the
/// normal is defined for spheres alone.
pub open spec fn shadable(mat: Material, geo: Geometry) -> bool {
    mat is Normal ==> geo is Sphere
}

/// A surface with its material. Every value is a pairing that can be shaded.
#[derive(Clone, Copy, Debug)]
pub struct Shape {
    mat: Material,
    geo: Geometry,
}

impl Shape {
    #[verifier::type_invariant]
    spec fn well_formed(self) -> bool {
        shadable(self.mat, self.geo)
    }

    /// The shape's material.
    pub closed spec fn material(self) -> Material {
        self.mat
    }

    /// The kind of the shape's surface.
    pub closed spec fn geometry(self) -> Geometry {
        self.geo
    }

    /// Pairs a material with a kind of surface, where the pairing can be
    /// shaded; a triangle shaded by its normal is turned down.
    pub fn new(mat: Material, geo: Geometry) -> (r: Option<Shape>)
        ensures
            r is Some <==> shadable(mat, geo),
            r matches Some(s) ==> s.material() == mat && s.geometry() == geo,
    {
        match (mat, geo) {
            (Material::Normal, Geometry::Triangle) => None,
            _ => Some(Shape { mat, geo }),
        }
    }

    /// The shape's material, which can colour the shape's kind of surface.
    pub fn mat(&self) -> (m: Material)
        ensures
            m == self.material(),
            shadable(m, self.geometry()),
    {
        proof {
            use_type_invariant(self);
        }
        self.mat
    }

    /// The kind of the shape's surface, which the shape's material can
    /// colour.
    pub fn geo(&self) -> (g: Geometry)
        ensures
            g == self.geometry(),
            shadable(self.material(), g),
    {
        proof {
            use_type_invariant(self);
        }
        self.geo
    }
}

/// The shape that a ray meets first, and where.
#[derive(Clone, Copy, Debug, PartialEq, Eq, Structural)]
pub struct Hit {
    /// The shape's position in the scene.
    pub shape: usize,
    /// The distance along the ray, as its bit pattern.
    pub distance: u32,
}

/// What is settled about a pixel once the nearest shape is known.
#[derive(Clone, Copy, Debug, PartialEq, Eq, Structural)]
pub enum Shading {
    /// The pixel has this colour.
    Color(Color),
    /// The pixel takes its colour from the surface normal of a sphere at the
    /// point of this hit.
    Normal(Hit),
}

/// `hits[i]` is the hit that wins: no hit is nearer, and none before it in
/// the scene is as near.
pub open spec fn is_nearest(hits: Seq<Option<u32>>, i: int) -> bool {
    &&& 0 <= i < hits.len()
    &&& hits[i] is Some
    &&& forall|j: int|
        0 <= j < hits.len() && (#[trigger] hits[j]) is Some ==> order_key(hits[i].unwrap())
            <= order_key(hits[j].unwrap())
    &&& forall|j: int|
        0 <= j < i && (#[trigger] hits[j]) is Some ==> order_key(hits[i].unwrap()) < order_key(
            hits[j].unwrap(),
        )
}

/// The position of the winning hit, or `None` where nothing was hit.
pub open spec fn nearest(hits: Seq<Option<u32>>) -> Option<int> {
    if exists|i: int| is_nearest(hits, i) {
        Some(choose|i: int| is_nearest(hits, i))
    } else {
        None
    }
}

/// At most one hit wins.
pub proof fn lemma_nearest_unique(hits: Seq<Option<u32>>, i: int, j: int)
    requires
        is_nearest(hits, i),
        is_nearest(hits, j),
    ensures
        i == j,
{
    if i < j {
        assert(hits[i] is Some);
    } else if j < i {
        assert(hits[j] is Some);
    }
}

/// The hit that meets `is_nearest` is the one that `nearest` names.
pub proof fn lemma_nearest_is(hits: Seq<Option<u32>>, i: int)
    requires
        is_nearest(hits, i),
    ensures
        nearest(hits) == Some(i),
{
    let c = choose|c: int| is_nearest(hits, c);
    lemma_nearest_unique(hits, i, c);
}

/// Where no shape was hit, nothing wins.
pub proof fn lemma_nearest_none(hits: Seq<Option<u32>>)
    requires
        forall|j: int| 0 <= j < hits.len() ==> hits[j] is None,
    ensures
        nearest(hits) is None,
{
}

/// Among the first `n` reports, if any of them is a hit, one wins.
proof fn lemma_prefix_has_nearest(hits: Seq<Option<u32>>, n: int) -> (i: int)
    requires
        0 <= n <= hits.len(),
        exists|j: int| 0 <= j < n && hits[j] is Some,
    ensures
        is_nearest(hits.take(n), i),
    decreases n,
{
    let last = n - 1;
    let before = hits.take(last);
    let upto = hits.take(n);
    assert forall|j: int| 0 <= j < last implies upto[j] == before[j] by {}
    if exists|j: int| 0 <= j < last && hits[j] is Some {
        let p = lemma_prefix_has_nearest(hits, last);
        if hits[last] is Some && order_key(hits[last].unwrap()) < order_key(hits[p].unwrap()) {
            assert forall|j: int| 0 <= j < last && (#[trigger] upto[j]) is Some implies order_key(
                upto[last].unwrap(),
            ) < order_key(upto[j].unwrap()) by {
                assert(before[j] is Some);
            }
            last
        } else {
            assert forall|j: int| 0 <= j < n && (#[trigger] upto[j]) is Some implies order_key(
                upto[p].unwrap(),
            ) <= order_key(upto[j].unwrap()) by {
                if j < last {
                    assert(before[j] is Some);
                }
            }
            assert forall|j: int| 0 <= j < p && (#[trigger] upto[j]) is Some implies order_key(
                upto[p].unwrap(),
            ) < order_key(upto[j].unwrap()) by {
                assert(before[j] is Some);
            }
            p
        }
    } else {
        last
    }
}

/// What `nearest` names is the hit that wins, and it names none only where
/// no shape was hit.
pub proof fn lemma_nearest_names_the_winner(hits: Seq<Option<u32>>)
    ensures
        nearest(hits) matches Some(i) ==> is_nearest(hits, i),
        nearest(hits) is None <==> forall|j: int| 0 <= j < hits.len() ==> hits[j] is None,
{
    if exists|j: int| 0 <= j < hits.len() && hits[j] is Some {
        let i = lemma_prefix_has_nearest(hits, hits.len() as int);
        assert(hits.take(hits.len() as int) =~= hits);
        lemma_nearest_is(hits, i);
    }
}

/// Finds the hit that wins among the reports of one ray, one report per
/// shape in scene order.
pub fn nearest_hit(hits: &Vec<Option<u32>>) -> (r: Option<Hit>)
    ensures
        r is None <==> forall|j: int| 0 <= j < hits.len() ==> hits[j] is None,
        r matches Some(hit) ==> is_nearest(hits@, hit.shape as int) && hits[hit.shape as int]
            == Some(hit.distance),
        r matches Some(hit) ==> nearest(hits@) == Some(hit.shape as int),
        r is None ==> nearest(hits@) is None,
{
    let mut best: Option<Hit> = None;
    let mut best_key: i32 = 0;
    let mut i: usize = 0;
    while i < hits.len()
        invariant
            0 <= i <= hits.len(),
            best is None ==> forall|j: int| 0 <= j < i ==> hits[j] is None,
            best matches Some(hit) ==> {
                &&& hit.shape < i
                &&& hits[hit.shape as int] == Some(hit.distance)
                &&& best_key == order_key(hit.distance)
                &&& forall|j: int|
                    0 <= j < i && (#[trigger] hits[j]) is Some ==> best_key <= order_key(
                        hits[j].unwrap(),
                    )
                &&& forall|j: int|
                    0 <= j < hit.shape && (#[trigger] hits[j]) is Some ==> best_key < order_key(
                        hits[j].unwrap(),
                    )
            },
        decreases hits.len() - i,
    {
        if let Some(distance) = hits[i] {
            let key: i32 = total_order_key(distance);
            if best.is_none() || key < best_key {
                best = Some(Hit { shape: i, distance });
                best_key = key;
            }
        }
        i += 1;
    }
    proof {
        match best {
            Some(hit) => {
                lemma_nearest_is(hits@, hit.shape as int);
            },
            None => {
                lemma_nearest_none(hits@);
            },
        }
    }
    best
}

/// What the reports of one ray decide about its pixel: the background where
/// nothing was hit; else the colour of the nearest shape where that is fixed
/// by its material, and the winning hit where the colour depends on the
/// surface normal there.
pub open spec fn shading_of(shapes: Seq<Shape>, hits: Seq<Option<u32>>) -> Shading {
    match nearest(hits) {
        None => Shading::Color(background()),
        Some(i) => match shapes[i].material() {
            Material::Color(c) => Shading::Color(c),
            Material::Normal => Shading::Normal(
                Hit { shape: i as usize, distance: hits[i].unwrap() },
            ),
        },
    }
}

/// Resolves one ray against a scene. `hits[i]` is what the test of the ray
/// against `shapes[i]` reported.
pub fn raytrace(shapes: &Vec<Shape>, hits: &Vec<Option<u32>>) -> (r: Shading)
    requires
        hits.len() == shapes.len(),
    ensures
        r == shading_of(shapes@, hits@),
        r matches Shading::Normal(hit) ==> hit.shape < shapes.len(),
        r matches Shading::Normal(hit) ==> shapes[hit.shape as int].geometry() is Sphere,
        r matches Shading::Normal(hit) ==> hits[hit.shape as int] == Some(hit.distance),
{
    match nearest_hit(hits) {
        None => Shading::Color(Color::background()),
        Some(hit) => match shapes[hit.shape].mat() {
            Material::Color(c) => Shading::Color(c),
            Material::Normal => Shading::Normal(hit),
        },
    }
}

/// `b` lists the reports of `a` in another order: `b[k]` is the report that
/// stands at `to_a[k]` in `a`, and no position of `a` is named twice.
pub open spec fn reordered(a: Seq<Option<u32>>, b: Seq<Option<u32>>, to_a: Seq<int>) -> bool {
    &&& a.len() == b.len()
    &&& a.len() == to_a.len()
    &&& to_a.no_duplicates()
    &&& forall|k: int|
        0 <= k < b.len() ==> 0 <= #[trigger] to_a[k] < a.len() && b[k] == a[to_a[k]]
}

/// `hits[i]` is a hit, and strictly nearer than every other hit.
pub open spec fn strictly_nearest(hits: Seq<Option<u32>>, i: int) -> bool {
    &&& 0 <= i < hits.len()
    &&& hits[i] is Some
    &&& forall|j: int|
        0 <= j < hits.len() && j != i && (#[trigger] hits[j]) is Some ==> order_key(
            hits[i].unwrap(),
        ) < order_key(hits[j].unwrap())
}

/// A hit that is strictly nearer than every other wins, wherever its shape
/// stands in the scene.
pub proof fn lemma_strictly_nearest_wins(hits: Seq<Option<u32>>, i: int)
    requires
        strictly_nearest(hits, i),
    ensures
        nearest(hits) == Some(i),
{
    assert(is_nearest(hits, i));
    lemma_nearest_is(hits, i);
}

/// In another order of a scene every shape stands somewhere: a list of `n`
/// positions below `n`, none of them twice, names each of them.
proof fn lemma_every_position_is_named(to_a: Seq<int>, i: int) -> (k: int)
    requires
        to_a.no_duplicates(),
        forall|k: int| 0 <= k < to_a.len() ==> 0 <= #[trigger] to_a[k] < to_a.len(),
        0 <= i < to_a.len(),
    ensures
        0 <= k < to_a.len(),
        to_a[k] == i,
{
    let n = to_a.len() as int;
    let named = to_a.to_set();
    let all = set_int_range(0, n);
    to_a.unique_seq_to_set();
    seq_to_set_is_finite(to_a);
    lemma_int_range(0, n);
    assert(named.subset_of(all)) by {
        assert forall|v: int| named.contains(v) implies all.contains(v) by {
            let k = choose|k: int| 0 <= k < to_a.len() && to_a[k] == v;
            assert(0 <= to_a[k] < to_a.len());
        }
    }
    lemma_subset_equality(named, all);
    assert(all.contains(i));
    assert(named.contains(i));
    choose|k: int| 0 <= k < to_a.len() && to_a[k] == i
}

/// The order of the scene does not matter to a ray with one strictly nearest
/// hit. List the shapes and their reports in any other order: the same shape
/// wins, at the position `k` where it now stands and at the same distance,
/// so the pixel is shaded by it.
pub proof fn lemma_scene_order_is_immaterial(
    shapes_a: Seq<Shape>,
    a: Seq<Option<u32>>,
    shapes_b: Seq<Shape>,
    b: Seq<Option<u32>>,
    to_a: Seq<int>,
    i: int,
) -> (k: int)
    requires
        shapes_a.len() == a.len(),
        shapes_b.len() == b.len(),
        a.len() <= usize::MAX,
        reordered(a, b, to_a),
        forall|l: int| 0 <= l < b.len() ==> shapes_b[l] == shapes_a[#[trigger] to_a[l]],
        strictly_nearest(a, i),
    ensures
        0 <= k < b.len(),
        to_a[k] == i,
        nearest(a) == Some(i),
        nearest(b) == Some(k),
        shapes_b[k] == shapes_a[i],
        b[k] == a[i],
        shapes_a[i].material() matches Material::Color(c) ==> shading_of(shapes_a, a)
            == Shading::Color(c) && shading_of(shapes_b, b) == Shading::Color(c),
        shapes_a[i].material() is Normal ==> shading_of(shapes_a, a) == Shading::Normal(
            (Hit { shape: i as usize, distance: a[i].unwrap() }),
        ) && shading_of(shapes_b, b) == Shading::Normal(
            (Hit { shape: k as usize, distance: a[i].unwrap() }),
        ),
{
    let k = lemma_every_position_is_named(to_a, i);
    lemma_strictly_nearest_wins(a, i);
    assert(strictly_nearest(b, k)) by {
        assert forall|l: int| 0 <= l < b.len() && l != k && (#[trigger] b[l]) is Some implies order_key(
            b[k].unwrap(),
        ) < order_key(b[l].unwrap()) by {
            assert(to_a[l] != to_a[k]);
            assert(b[l] == a[to_a[l]]);
        }
    }
    lemma_strictly_nearest_wins(b, k);
    k
}

} // verus!
