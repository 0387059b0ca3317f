use std::collections::HashMap;
use vstd::arithmetic::power::pow;
use vstd::prelude::*;

use crate::mesh::{weld_key_of, Polyhedron, Triangle};
use crate::topology::{
    across_edge, cell_centroids, corner_hits, find_center_of_triangles, incident_cells, sum_of_centroids,
};
use crate::subdivide::is_geodesic_sphere;
use crate::vector::{MeshVector, WeldKey, WELD_PRECISION};

verus! {

broadcast use vstd::std_specs::hash::group_hash_axioms;

/// Why a mesh has no dual: its topology is malformed.
#[derive(Clone, Copy, Debug, PartialEq, Eq, Structural)]
pub enum MeshError {
    /// `cell` is listed at `vertex` but has fewer than two other corners.
    DegenerateCell { vertex: usize, cell: usize },
    /// No other cell at `spoke` shares the edge `spoke`-`vertex` with `cell`.
    MissingAdjacentFace { spoke: usize, vertex: usize, cell: usize },
    /// No cell has a corner at `vertex`.
    IsolatedVertex { vertex: usize },
}

/// How many faces of a dual mesh are hexagons, how many pentagons, and how
/// many have another number of sides.
#[derive(Clone, Copy, Debug, PartialEq, Eq, Structural)]
pub struct PolygonCounts {
    pub hexagons: usize,
    pub pentagons: usize,
    pub others: usize,
}

/// The number of faces among `faces` fanned from `2 * sides` triangles, that
/// is, with `sides` sides.
pub open spec fn count_polygons(faces: Seq<Seq<usize>>, sides: int) -> nat
    decreases faces.len(),
{
    if faces.len() == 0 {
        0
    } else {
        count_polygons(faces.drop_last(), sides) + if faces.last().len() == 2 * sides {
            1nat
        } else {
            0nat
        }
    }
}

/// The first two corners of `tri` other than `v`, in corner order.
pub open spec fn other_corners(tri: Triangle, v: int) -> Option<(usize, usize)> {
    if tri.a != v {
        if tri.b != v {
            Some((tri.a, tri.b))
        } else if tri.c != v {
            Some((tri.a, tri.c))
        } else {
            None
        }
    } else if tri.b != v && tri.c != v {
        Some((tri.b, tri.c))
    } else {
        None
    }
}

/// `faces[k]` is the first cell of `faces` across the edge `spoke`-`vertex`
/// from `current`.
pub open spec fn first_across(
    cells: Seq<Triangle>,
    faces: Seq<usize>,
    k: int,
    current: int,
    spoke: int,
    vertex: int,
) -> bool {
    &&& across_edge(cells, faces[k] as int, current, spoke, vertex)
    &&& forall|k2: int|
        0 <= k2 < k ==> !across_edge(cells, #[trigger] faces[k2] as int, current, spoke, vertex)
}

/// Some cell of `faces` lies across the edge `spoke`-`vertex` from `current`.
pub open spec fn has_adjacent(
    cells: Seq<Triangle>,
    faces: Seq<usize>,
    current: int,
    spoke: int,
    vertex: int,
) -> bool {
    exists|k: int|
        0 <= k < faces.len() && across_edge(cells, #[trigger] faces[k] as int, current, spoke, vertex)
}

/// Cell `f`, one of the cells `faces` around vertex `v`, has two corners
/// `p`, `q` besides `v`, and a neighbour among `faces` across each of the
/// edges `v`-`p` and `v`-`q`.
pub open spec fn cell_ready(cells: Seq<Triangle>, faces: Seq<usize>, v: int, f: int) -> bool {
    match other_corners(cells[f], v) {
        Some((p, q)) => has_adjacent(cells, faces, f, v, p as int) && has_adjacent(
            cells,
            faces,
            f,
            v,
            q as int,
        ),
        None => false,
    }
}

/// Vertex `v` lies on some cell, and every cell around it is ready for the dual construction.
pub open spec fn vertex_ready(cells: Seq<Triangle>, v: int) -> bool {
    &&& incident_cells(cells, v).len() > 0
    &&& forall|k: int|
        0 <= k < incident_cells(cells, v).len() ==> cell_ready(
            cells,
            incident_cells(cells, v),
            v,
            #[trigger] incident_cells(cells, v)[k] as int,
        )
}

/// A mesh over `n` vertices whose every vertex is ready for the dual
/// construction.
pub open spec fn dual_ready(cells: Seq<Triangle>, n: int) -> bool {
    forall|v: int| 0 <= v < n ==> #[trigger] vertex_ready(cells, v)
}

/// The center of the dual polygon of the listed cells: the mean of their
/// centroids.
pub open spec fn polygon_center<V: MeshVector>(faces: Seq<usize>, centroids: Seq<V>) -> V {
    sum_of_centroids(faces, centroids, faces.len() as int).spec_divided_by(faces.len() as usize)
}

/// The fan of `2 * faces.len()` cells from `start` on is centered on the
/// polygon center of `faces`, and its pairs of cells visit `faces` from the
/// last to the first: the pair at `start + 2 * m` has the centroid of
/// `faces[faces.len() - 1 - m]` as the last corner of its first cell.
pub open spec fn fan_keys<V: MeshVector>(
    mesh: Polyhedron<V>,
    start: int,
    faces: Seq<usize>,
    centroids: Seq<V>,
) -> bool {
    &&& forall|t: int|
        start <= t < start + 2 * faces.len() ==> mesh.weld_keys()[(
        #[trigger] mesh.spec_cells()[t]).a as int] == weld_key_of(polygon_center(faces, centroids))
    &&& forall|t: int|
        start <= t < start + 2 * faces.len() && (t - start) % 2 == 0 ==> mesh.weld_keys()[(
        #[trigger] mesh.spec_cells()[t]).c as int] == weld_key_of(
            centroids[faces[faces.len() - 1 - (t - start) / 2] as int],
        )
}

/// Growing a mesh keeps the keys of its fans.
pub proof fn lemma_grows_keeps_fan_keys<V: MeshVector>(
    after: Polyhedron<V>,
    before: Polyhedron<V>,
    start: int,
    faces: Seq<usize>,
    centroids: Seq<V>,
)
    requires
        before.wf(),
        after.grows_from(&before),
        0 <= start,
        start + 2 * faces.len() <= before.spec_cells().len(),
        fan_keys(before, start, faces, centroids),
    ensures
        fan_keys(after, start, faces, centroids),
{
    assert forall|t: int| start <= t < start + 2 * faces.len() implies after.weld_keys()[(
    #[trigger] after.spec_cells()[t]).a as int] == weld_key_of(polygon_center(faces, centroids)) by {
        assert(before.spec_cells()[t].in_range(before.spec_positions().len() as int));
        assert(before.weld_keys()[before.spec_cells()[t].a as int] == weld_key_of(polygon_center(faces, centroids)));
    }
    assert forall|t: int| start <= t < start + 2 * faces.len() && (t - start) % 2 == 0 implies after.weld_keys()[(
    #[trigger] after.spec_cells()[t]).c as int] == weld_key_of(
        centroids[faces[faces.len() - 1 - (t - start) / 2] as int],
    ) by {
        assert(before.spec_cells()[t].in_range(before.spec_positions().len() as int));
        assert(before.weld_keys()[before.spec_cells()[t].c as int] == weld_key_of(
            centroids[faces[faces.len() - 1 - (t - start) / 2] as int],
        ));
    }
}

/// The number of cells in the dual polygon of vertex `v`: two for each cell
/// around it.
pub open spec fn dual_polygon_cells(cells: Seq<Triangle>, v: int) -> int {
    2 * incident_cells(cells, v).len() as int
}

/// The number of cells the dual construction emits for the vertices
/// before `v`: two for each cell around each of them.
pub open spec fn dual_cells_before(cells: Seq<Triangle>, v: int) -> int
    decreases v,
{
    if v <= 0 {
        0
    } else {
        dual_cells_before(cells, v - 1) + 2 * incident_cells(cells, v - 1).len()
    }
}

/// How many of the corners of `tri` are below `m`.
pub open spec fn corners_below(tri: Triangle, m: int) -> int {
    (if tri.a < m { 1int } else { 0int }) + (if tri.b < m { 1int } else { 0int }) + (if tri.c < m {
        1int
    } else {
        0int
    })
}

/// The number of corners of `tri` that are `v`.
pub open spec fn corners_at(tri: Triangle, v: int) -> int {
    (if tri.a == v { 1int } else { 0int }) + (if tri.b == v { 1int } else { 0int }) + (if tri.c == v {
        1int
    } else {
        0int
    })
}

/// The sum over the vertices `v < m` of the number of corners of `tri` at `v`.
pub open spec fn corners_at_before(tri: Triangle, m: int) -> int
    decreases m,
{
    if m <= 0 {
        0
    } else {
        corners_at_before(tri, m - 1) + corners_at(tri, m - 1)
    }
}

proof fn lemma_corners_at_before(tri: Triangle, m: int)
    requires
        0 <= m,
    ensures
        corners_at_before(tri, m) == corners_below(tri, m),
    decreases m,
{
    if m > 0 {
        lemma_corners_at_before(tri, m - 1);
    }
}

proof fn lemma_corner_hits_len(tri: Triangle, v: int, t: int)
    ensures
        corner_hits(tri, v, t).len() == corners_at(tri, v),
{
}

/// Splitting off the last cell splits the incidence counts of the vertices
/// below `m`.
proof fn lemma_dual_cells_before_split(cells: Seq<Triangle>, m: int)
    requires
        cells.len() > 0,
        0 <= m,
    ensures
        dual_cells_before(cells, m) == dual_cells_before(cells.drop_last(), m) + 2
            * corners_at_before(cells.last(), m),
    decreases m,
{
    if m > 0 {
        lemma_dual_cells_before_split(cells, m - 1);
        lemma_corner_hits_len(cells.last(), m - 1, cells.len() - 1);
    }
}

/// The dual of a mesh over `n` vertices has six triangles for each of its
/// triangles: each corner of a triangle puts that triangle once in the
/// polygon of the corner's vertex, which fans two triangles from it.
pub proof fn lemma_dual_cell_count(cells: Seq<Triangle>, n: int)
    requires
        0 <= n,
        forall|t: int| 0 <= t < cells.len() ==> (#[trigger] cells[t]).in_range(n),
    ensures
        dual_cells_before(cells, n) == 6 * cells.len(),
    decreases cells.len(),
{
    if cells.len() == 0 {
        lemma_dual_cells_before_empty(cells, n);
    } else {
        let rest = cells.drop_last();
        assert forall|t: int| 0 <= t < rest.len() implies (#[trigger] rest[t]).in_range(n) by {
            assert(cells[t].in_range(n));
        }
        lemma_dual_cell_count(rest, n);
        lemma_dual_cells_before_split(cells, n);
        lemma_corners_at_before(cells.last(), n);
        assert(cells[cells.len() - 1].in_range(n));
    }
}

proof fn lemma_dual_cells_before_empty(cells: Seq<Triangle>, m: int)
    requires
        cells.len() == 0,
        0 <= m,
    ensures
        dual_cells_before(cells, m) == 0,
    decreases m,
{
    if m > 0 {
        lemma_dual_cells_before_empty(cells, m - 1);
    }
}

/// The identity of the unordered pair of cells `f`, `g` in the mid-centroid
/// cache.
pub open spec fn pair_id(f: int, g: int) -> int {
    if f <= g {
        f * 0x1_0000_0000_0000_0000 + g
    } else {
        g * 0x1_0000_0000_0000_0000 + f
    }
}

/// The two cells on either side of an edge share one entry of the
/// mid-centroid cache, whichever of them asks first.
pub proof fn lemma_pair_id_symmetric(f: int, g: int)
    ensures
        pair_id(f, g) == pair_id(g, f),
{
}

fn cell_pair_id(f: usize, g: usize) -> (r: u128)
    ensures
        r == pair_id(f as int, g as int),
{
    if f <= g {
        f as u128 * 0x1_0000_0000_0000_0000 + g as u128
    } else {
        g as u128 * 0x1_0000_0000_0000_0000 + f as u128
    }
}

fn other_corners_of(tri: Triangle, v: usize) -> (r: Option<(usize, usize)>)
    ensures
        r == other_corners(tri, v as int),
{
    if tri.a != v {
        if tri.b != v {
            Some((tri.a, tri.b))
        } else if tri.c != v {
            Some((tri.a, tri.c))
        } else {
            None
        }
    } else if tri.b != v && tri.c != v {
        Some((tri.b, tri.c))
    } else {
        None
    }
}

impl<V: MeshVector> Polyhedron<V> {
    /// The midpoint between the centroid of cell `current` and that of the
    /// first cell of `faces` across its edge `spoke`-`vertex`. The
    /// midpoint of a pair of cells is computed once and kept in `cache`, so
    /// that the cell on the other side of the edge gets the very same point.
    pub fn calculate_mid_centroid(
        &self,
        spoke: usize,
        vertex: usize,
        faces: &Vec<usize>,
        current: usize,
        centroid: &V,
        centroids: &Vec<V>,
        cache: &mut HashMap<u128, V>,
    ) -> (r: Result<V, MeshError>)
        requires
            self.wf(),
            centroids@.len() == self.spec_cells().len(),
            forall|k: int| 0 <= k < faces@.len() ==> #[trigger] faces@[k] < self.spec_cells().len(),
        ensures
            r is Ok <==> has_adjacent(
                self.spec_cells(),
                faces@,
                current as int,
                spoke as int,
                vertex as int,
            ),
            r is Err ==> r == Err::<V, MeshError>(
                MeshError::MissingAdjacentFace { spoke, vertex, cell: current },
            ) && final(cache)@ == old(cache)@,
            r matches Ok(p) ==> exists|k: int|
                {
                    &&& 0 <= k < faces@.len()
                    &&& first_across(self.spec_cells(), faces@, k, current as int, spoke as int, vertex as int)
                    &&& final(cache)@ == old(cache)@.insert(pair_id(current as int, faces@[k] as int) as u128, p)
                    &&& old(cache)@.contains_key(pair_id(current as int, faces@[k] as int) as u128) ==> p
                        == old(cache)@[pair_id(current as int, faces@[k] as int) as u128]
                    &&& !old(cache)@.contains_key(pair_id(current as int, faces@[k] as int) as u128) ==> p
                        == centroid.spec_lerp(centroids@[faces@[k] as int], 1, 2)
                },
    {
        match self.find_adjacent_face(spoke, vertex, faces, current) {
            None => Err(MeshError::MissingAdjacentFace { spoke, vertex, cell: current }),
            Some(adj) => {
                let ghost k = choose|k: int|
                    {
                        &&& 0 <= k < faces@.len()
                        &&& faces@[k] == adj
                        &&& across_edge(self.spec_cells(), adj as int, current as int, spoke as int, vertex as int)
                        &&& forall|k2: int|
                            0 <= k2 < k ==> !across_edge(
                                self.spec_cells(),
                                #[trigger] faces@[k2] as int,
                                current as int,
                                spoke as int,
                                vertex as int,
                            )
                    };
                assert(first_across(self.spec_cells(), faces@, k, current as int, spoke as int, vertex as int));
                let id = cell_pair_id(current, adj);
                match cache.get(&id) {
                    Some(p) => {
                        let p = *p;
                        proof {
                            assert(cache@.insert(id, p) =~= cache@);
                        }
                        Ok(p)
                    },
                    None => {
                        let p = centroid.lerp(&centroids[adj], 1, 2);
                        cache.insert(id, p);
                        Ok(p)
                    },
                }
            },
        }
    }

    /// Emits the two triangles that cell `f`, one of the cells `faces`
    /// around vertex `v`, contributes to the dual polygon of `v`: with `p`,
    /// `q` the other corners of `f`, the triangles (center, mid-centroid
    /// across `v`-`q`, centroid of `f`) and (center, centroid of `f`,
    /// mid-centroid across `v`-`p`).
    fn add_fan_pair(
        &mut self,
        other: &Polyhedron<V>,
        v: usize,
        f: usize,
        faces: &Vec<usize>,
        center: &V,
        center_key: WeldKey,
        centroids: &Vec<V>,
        cache: &mut HashMap<u128, V>,
    ) -> (r: Result<(), MeshError>)
        requires
            old(self).wf(),
            other.wf(),
            f < other.spec_cells().len(),
            centroids@.len() == other.spec_cells().len(),
            forall|k: int| 0 <= k < faces@.len() ==> #[trigger] faces@[k] < other.spec_cells().len(),
            center_key == weld_key_of(*center),
        ensures
            final(self).wf(),
            final(self).grows_from(old(self)),
            final(self).spec_faces() == old(self).spec_faces(),
            r is Ok <==> cell_ready(other.spec_cells(), faces@, v as int, f as int),
            r is Err ==> final(self).spec_cells().len() == old(self).spec_cells().len(),
            r is Ok ==> {
                let s = old(self).spec_cells().len() as int;
                let cells = final(self).spec_cells();
                &&& cells.len() == s + 2
                &&& final(self).weld_keys()[cells[s].a as int] == center_key
                &&& final(self).weld_keys()[cells[s + 1].a as int] == center_key
                &&& cells[s].c == cells[s + 1].b
                &&& final(self).weld_keys()[cells[s].c as int] == weld_key_of(centroids@[f as int])
            },
    {
        let tri = other.cells()[f];
        match other_corners_of(tri, v) {
            None => Err(MeshError::DegenerateCell { vertex: v, cell: f }),
            Some((p, q)) => {
                let centroid = centroids[f];
                let mid_p = match other.calculate_mid_centroid(
                    v,
                    p,
                    faces,
                    f,
                    &centroid,
                    centroids,
                    cache,
                ) {
                    Ok(m) => m,
                    Err(e) => {
                        return Err(e);
                    },
                };
                let mid_q = match other.calculate_mid_centroid(
                    v,
                    q,
                    faces,
                    f,
                    &centroid,
                    centroids,
                    cache,
                ) {
                    Ok(m) => m,
                    Err(e) => {
                        return Err(e);
                    },
                };
                let ghost s0 = *self;
                let center_index = self.add_position(*center);
                let ghost s1 = *self;
                let centroid_index = self.add_position(centroid);
                let ghost s2 = *self;
                let mid_p_index = self.add_position(mid_p);
                let ghost s3 = *self;
                let mid_q_index = self.add_position(mid_q);
                let ghost s4 = *self;
                self.push_cell(Triangle::new(center_index, mid_q_index, centroid_index));
                let ghost s5 = *self;
                self.push_cell(Triangle::new(center_index, centroid_index, mid_p_index));
                proof {
                    s2.lemma_grows_trans(&s1, &s0);
                    s3.lemma_grows_trans(&s2, &s0);
                    s4.lemma_grows_trans(&s3, &s0);
                    s5.lemma_grows_trans(&s4, &s0);
                    self.lemma_grows_trans(&s5, &s0);
                }
                Ok(())
            },
        }
    }

    /// Emits the dual polygon of vertex `v`, whose cells are `faces`: a fan
    /// of two triangles per cell, visited from the last listed cell to the
    /// first, around the mean of their centroids; then the face grouping
    /// them.
    #[verifier::spinoff_prover]
    pub fn add_dual_polygon(
        &mut self,
        other: &Polyhedron<V>,
        v: usize,
        faces: &Vec<usize>,
        centroids: &Vec<V>,
        cache: &mut HashMap<u128, V>,
    ) -> (r: Result<(), MeshError>)
        requires
            old(self).wf(),
            other.wf(),
            centroids@.len() == other.spec_cells().len(),
            forall|k: int| 0 <= k < faces@.len() ==> #[trigger] faces@[k] < other.spec_cells().len(),
        ensures
            final(self).wf(),
            final(self).grows_from(old(self)),
            r is Ok <==> faces@.len() > 0 && forall|k: int|
                0 <= k < faces@.len() ==> cell_ready(
                    other.spec_cells(),
                    faces@,
                    v as int,
                    #[trigger] faces@[k] as int,
                ),
            faces@.len() == 0 ==> r == Err::<(), MeshError>(MeshError::IsolatedVertex { vertex: v }),
            r is Ok ==> {
                &&& final(self).spec_cells().len() == old(self).spec_cells().len() + 2 * faces@.len()
                &&& final(self).spec_faces().len() == old(self).spec_faces().len() + 1
                &&& final(self).is_fan(
                    old(self).spec_faces().len() as int,
                    old(self).spec_cells().len() as int,
                    2 * faces@.len() as int,
                )
                &&& fan_keys(
                    *final(self),
                    old(self).spec_cells().len() as int,
                    faces@,
                    centroids@,
                )
            },
    {
        if faces.len() == 0 {
            return Err(MeshError::IsolatedVertex { vertex: v });
        }
        let center = find_center_of_triangles(faces, centroids);
        let center_key = center.weld_key(WELD_PRECISION);
        let start = self.cells().len();
        let mut new_face: Vec<usize> = Vec::new();
        let mut idx = faces.len();
        while idx > 0
            invariant
                other.wf(),
                centroids@.len() == other.spec_cells().len(),
                forall|k: int| 0 <= k < faces@.len() ==> #[trigger] faces@[k] < other.spec_cells().len(),
                self.wf(),
                self.grows_from(old(self)),
                self.spec_faces() == old(self).spec_faces(),
                start == old(self).spec_cells().len(),
                center_key == weld_key_of(center),
                center == polygon_center(faces@, centroids@),
                idx <= faces@.len(),
                forall|t: int|
                    start <= t < self.spec_cells().len() && (t - start) % 2 == 0 ==> self.weld_keys()[(
                    #[trigger] self.spec_cells()[t]).c as int] == weld_key_of(
                        centroids@[faces@[faces@.len() - 1 - (t - start) / 2] as int],
                    ),
                self.spec_cells().len() == start + 2 * (faces@.len() - idx),
                new_face@ == Seq::new(
                    (2 * (faces@.len() - idx)) as nat,
                    |k: int| (start + k) as usize,
                ),
                forall|t: int|
                    start <= t < self.spec_cells().len() ==> self.weld_keys()[(
                    #[trigger] self.spec_cells()[t]).a as int] == center_key,
                forall|t: int|
                    start <= t < self.spec_cells().len() && (t - start) % 2 == 0 ==> (
                    #[trigger] self.spec_cells()[t]).c == self.spec_cells()[t + 1].b,
                forall|k: int|
                    idx <= k < faces@.len() ==> cell_ready(
                        other.spec_cells(),
                        faces@,
                        v as int,
                        #[trigger] faces@[k] as int,
                    ),
            decreases idx,
        {
            idx = idx - 1;
            let f = faces[idx];
            let here = self.cells().len();
            let ghost before = *self;
            match self.add_fan_pair(other, v, f, faces, &center, center_key, centroids, cache) {
                Ok(()) => {},
                Err(e) => {
                    return Err(e);
                },
            }
            let last = self.cells().len() - 1;
            new_face.push(here);
            new_face.push(last);
            proof {
                self.lemma_grows_trans(&before, old(self));
                assert(new_face@ =~= Seq::new(
                    (2 * (faces@.len() - idx)) as nat,
                    |k: int| (start + k) as usize,
                ));
                assert forall|t: int|
                    start <= t < self.spec_cells().len() && (t - start) % 2 == 0 implies (
                    #[trigger] self.spec_cells()[t]).c == self.spec_cells()[t + 1].b by {
                    if t < here {
                        assert(before.spec_cells()[t].c == before.spec_cells()[t + 1].b);
                    }
                }
                assert forall|t: int|
                    start <= t < self.spec_cells().len() && (t - start) % 2 == 0 implies self.weld_keys()[(
                    #[trigger] self.spec_cells()[t]).c as int] == weld_key_of(
                        centroids@[faces@[faces@.len() - 1 - (t - start) / 2] as int],
                    ) by {
                    if t < here {
                        assert(before.weld_keys()[before.spec_cells()[t].c as int] == weld_key_of(
                            centroids@[faces@[faces@.len() - 1 - (t - start) / 2] as int],
                        ));
                        assert(before.spec_cells()[t].in_range(before.spec_positions().len() as int));
                    } else {
                        assert(t == here);
                        assert((t - start) / 2 == faces@.len() - 1 - idx);
                    }
                }
                assert forall|t: int|
                    start <= t < self.spec_cells().len() implies self.weld_keys()[(
                    #[trigger] self.spec_cells()[t]).a as int] == center_key by {
                    if t < here {
                        assert(before.weld_keys()[before.spec_cells()[t].a as int] == center_key);
                        assert(before.spec_cells()[t].in_range(before.spec_positions().len() as int));
                    }
                }
            }
        }
        let ghost grown = *self;
        let ghost face_seq = new_face@;
        self.push_face(new_face);
        proof {
            self.lemma_grows_trans(&grown, old(self));
            let cells = self.spec_cells();
            let count = 2 * faces@.len() as int;
            assert(self.spec_faces()[old(self).spec_faces().len() as int] == face_seq);
            assert forall|t: int| start <= t < start + count implies (#[trigger] cells[t]).a
                == cells[start as int].a by {
                assert(self.weld_keys()[cells[t].a as int] == center_key);
                assert(self.weld_keys()[cells[start as int].a as int] == center_key);
                assert(cells[t].in_range(self.spec_positions().len() as int));
                assert(cells[start as int].in_range(self.spec_positions().len() as int));
            }
        }
        Ok(())
    }

    /// Builds the dual of `other` into `self`: for each vertex `v` of
    /// `other`, in order, the polygon around `v` (see `add_dual_polygon`)
    /// as one face. Fails when `other` is not ready for it.
    #[verifier::spinoff_prover]
    pub fn truncated(&mut self, other: &Polyhedron<V>) -> (r: Result<(), MeshError>)
        requires
            old(self).wf(),
            other.wf(),
        ensures
            final(self).wf(),
            final(self).grows_from(old(self)),
            r is Ok <==> dual_ready(other.spec_cells(), other.spec_positions().len() as int),
            r is Ok ==> {
                let n = other.spec_positions().len() as int;
                let oc = other.spec_cells();
                &&& final(self).spec_faces().len() == old(self).spec_faces().len() + n
                &&& final(self).spec_cells().len() == old(self).spec_cells().len()
                    + dual_cells_before(oc, n)
                &&& forall|v: int|
                    0 <= v < n ==> #[trigger] final(self).is_fan(
                        old(self).spec_faces().len() + v,
                        old(self).spec_cells().len() + dual_cells_before(oc, v),
                        dual_polygon_cells(oc, v),
                    )
                &&& forall|v: int|
                    0 <= v < n ==> #[trigger] fan_keys(
                        *final(self),
                        old(self).spec_cells().len() + dual_cells_before(oc, v),
                        incident_cells(oc, v),
                        cell_centroids(*other),
                    )
            },
    {
        let vert_to_faces = other.vert_to_faces();
        let n = other.positions().len();
        let centroids = other.triangle_centroids();
        let mut cache: HashMap<u128, V> = HashMap::new();
        let ghost oc = other.spec_cells();
        let cell_count = other.cells().len();
        let ghost faces0 = old(self).spec_faces().len() as int;
        let ghost cells0 = old(self).spec_cells().len() as int;
        let mut v: usize = 0;
        while v < n
            invariant
                other.wf(),
                oc == other.spec_cells(),
                cell_count == oc.len(),
                n == other.spec_positions().len(),
                vert_to_faces@.len() == n,
                forall|u: int|
                    0 <= u < n ==> (#[trigger] vert_to_faces@[u])@ == incident_cells(oc, u),
                centroids@.len() == oc.len(),
                faces0 == old(self).spec_faces().len(),
                cells0 == old(self).spec_cells().len(),
                v <= n,
                self.wf(),
                self.grows_from(old(self)),
                self.spec_faces().len() == faces0 + v,
                self.spec_cells().len() == cells0 + dual_cells_before(oc, v as int),
                forall|u: int|
                    0 <= u < v ==> #[trigger] self.is_fan(
                        faces0 + u,
                        cells0 + dual_cells_before(oc, u),
                        dual_polygon_cells(oc, u),
                    ),
                forall|u: int| 0 <= u < v ==> #[trigger] vertex_ready(oc, u),
                centroids@ == cell_centroids(*other),
                forall|u: int|
                    0 <= u < v ==> #[trigger] fan_keys(
                        *self,
                        cells0 + dual_cells_before(oc, u),
                        incident_cells(oc, u),
                        cell_centroids(*other),
                    ),
            decreases n - v,
        {
            let faces = &vert_to_faces[v];
            proof {
                crate::topology::lemma_incident_cells_touch(oc, v as int);
            }
            let ghost before = *self;
            match self.add_dual_polygon(other, v, faces, &centroids, &mut cache) {
                Ok(()) => {},
                Err(e) => {
                    proof {
                        assert(!vertex_ready(oc, v as int));
                    }
                    return Err(e);
                },
            }
            proof {
                self.lemma_grows_trans(&before, old(self));
                assert(vertex_ready(oc, v as int));
                assert forall|u: int| 0 <= u < v + 1 implies #[trigger] self.is_fan(
                    faces0 + u,
                    cells0 + dual_cells_before(oc, u),
                    dual_polygon_cells(oc, u),
                ) by {
                    if u < v {
                        self.lemma_grows_keeps_fan(
                            &before,
                            faces0 + u,
                            cells0 + dual_cells_before(oc, u),
                            dual_polygon_cells(oc, u),
                        );
                    }
                }
                assert forall|u: int| 0 <= u < v + 1 implies #[trigger] fan_keys(
                    *self,
                    cells0 + dual_cells_before(oc, u),
                    incident_cells(oc, u),
                    cell_centroids(*other),
                ) by {
                    if u < v {
                        assert(before.is_fan(faces0 + u, cells0 + dual_cells_before(oc, u), dual_polygon_cells(oc, u)));
                        lemma_grows_keeps_fan_keys(
                            *self,
                            before,
                            cells0 + dual_cells_before(oc, u),
                            incident_cells(oc, u),
                            cell_centroids(*other),
                        );
                    }
                }
            }
            v = v + 1;
        }
        Ok(())
    }

    /// The dual of the geodesic sphere `new_isocahedron(radius, detail)`:
    /// one polygonal face per vertex of the sphere, hexagons and pentagons.
    pub fn new_truncated_isocahedron(radius: V::Scalar, detail: usize) -> (r: Result<
        Polyhedron<V>,
        MeshError,
    >)
        requires
            20 * pow(4, detail as nat) <= usize::MAX,
        ensures
            exists|sphere: Polyhedron<V>|
                {
                    let n = sphere.spec_positions().len() as int;
                    let oc = sphere.spec_cells();
                    &&& #[trigger] sphere.wf()
                    &&& oc.len() == 20 * pow(4, detail as nat)
                    &&& is_geodesic_sphere(sphere, radius, detail as nat)
                    &&& (r is Ok <==> dual_ready(oc, n))
                    &&& r matches Ok(dual) ==> {
                        &&& dual.wf()
                        &&& dual.spec_faces().len() == n
                        &&& dual.spec_cells().len() == dual_cells_before(oc, n)
                        &&& dual.spec_cells().len() == 120 * pow(4, detail as nat)
                        &&& forall|v: int|
                            0 <= v < n ==> #[trigger] dual.is_fan(
                                v,
                                dual_cells_before(oc, v),
                                dual_polygon_cells(oc, v),
                            )
                        &&& forall|v: int|
                            0 <= v < n ==> #[trigger] fan_keys(
                                dual,
                                dual_cells_before(oc, v),
                                incident_cells(oc, v),
                                cell_centroids(sphere),
                            )
                    }
                },
    {
        let sphere = Polyhedron::new_isocahedron(radius, detail);
        let mut dual = Polyhedron::new();
        assert(sphere.wf());
        match dual.truncated(&sphere) {
            Ok(()) => {
                proof {
                    let n = sphere.spec_positions().len() as int;
                    let oc = sphere.spec_cells();
                    lemma_dual_cell_count(oc, n);
                    assert forall|v: int| 0 <= v < n implies #[trigger] dual.is_fan(
                        v,
                        dual_cells_before(oc, v),
                        dual_polygon_cells(oc, v),
                    ) by {
                        assert(dual.is_fan(0 + v, 0 + dual_cells_before(oc, v), dual_polygon_cells(oc, v)));
                    }
                    assert forall|v: int| 0 <= v < n implies #[trigger] fan_keys(
                        dual,
                        dual_cells_before(oc, v),
                        incident_cells(oc, v),
                        cell_centroids(sphere),
                    ) by {
                        assert(fan_keys(dual, 0 + dual_cells_before(oc, v), incident_cells(oc, v), cell_centroids(sphere)));
                    }
                }
                Ok(dual)
            },
            Err(e) => Err(e),
        }
    }

    /// Counts the faces by their number of sides: a face fanned from `2 * k`
    /// triangles has `k` sides.
    pub fn polygon_counts(&self) -> (r: PolygonCounts)
        requires
            self.wf(),
        ensures
            r.hexagons == count_polygons(self.spec_faces(), 6),
            r.pentagons == count_polygons(self.spec_faces(), 5),
            r.hexagons + r.pentagons + r.others == self.spec_faces().len(),
    {
        let faces = self.faces();
        let mut counts = PolygonCounts { hexagons: 0, pentagons: 0, others: 0 };
        let mut f: usize = 0;
        while f < faces.len()
            invariant
                faces@.map_values(|g: Vec<usize>| g@) == self.spec_faces(),
                f <= faces@.len(),
                counts.hexagons == count_polygons(self.spec_faces().take(f as int), 6),
                counts.pentagons == count_polygons(self.spec_faces().take(f as int), 5),
                counts.hexagons + counts.pentagons + counts.others == f,
            decreases faces@.len() - f,
        {
            let len = faces[f].len();
            proof {
                assert(self.spec_faces().take(f + 1).drop_last() =~= self.spec_faces().take(f as int));
                assert(self.spec_faces()[f as int].len() == len);
            }
            if len == 12 {
                counts.hexagons = counts.hexagons + 1;
            } else if len == 10 {
                counts.pentagons = counts.pentagons + 1;
            } else {
                counts.others = counts.others + 1;
            }
            f = f + 1;
        }
        assert(self.spec_faces().take(faces@.len() as int) =~= self.spec_faces());
        counts
    }
}

} // verus!
