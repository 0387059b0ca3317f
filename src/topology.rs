use vstd::prelude::*;

use crate::mesh::{Polyhedron, Triangle};
use crate::vector::MeshVector;

verus! {

/// `t` once for each corner of `tri` that is `v`, in corner order.
pub open spec fn corner_hits(tri: Triangle, v: int, t: int) -> Seq<usize> {
    (if tri.a == v {
        seq![t as usize]
    } else {
        Seq::empty()
    }) + (if tri.b == v {
        seq![t as usize]
    } else {
        Seq::empty()
    }) + (if tri.c == v {
        seq![t as usize]
    } else {
        Seq::empty()
    })
}

proof fn lemma_corner_hits(tri: Triangle, v: int, t: int)
    requires
        0 <= t <= usize::MAX,
    ensures
        forall|k: int|
            0 <= k < corner_hits(tri, v, t).len() ==> #[trigger] corner_hits(tri, v, t)[k] == t
                && tri.has_corner(v),
{
    let sa: Seq<usize> = if tri.a == v { seq![t as usize] } else { Seq::empty() };
    let sb: Seq<usize> = if tri.b == v { seq![t as usize] } else { Seq::empty() };
    let sc: Seq<usize> = if tri.c == v { seq![t as usize] } else { Seq::empty() };
    assert(corner_hits(tri, v, t) == sa + sb + sc);
    assert forall|k: int| 0 <= k < corner_hits(tri, v, t).len() implies #[trigger] corner_hits(tri, v, t)[k] == t
        && tri.has_corner(v) by {
        if k < sa.len() {
            assert((sa + sb + sc)[k] == sa[k]);
        } else if k < sa.len() + sb.len() {
            assert((sa + sb + sc)[k] == sb[k - sa.len()]);
        } else {
            assert((sa + sb + sc)[k] == sc[k - sa.len() - sb.len()]);
        }
    }
}

/// The indices of the cells that touch vertex `v`, in increasing order, a
/// cell listed once per corner it has at `v`.
pub open spec fn incident_cells(cells: Seq<Triangle>, v: int) -> Seq<usize>
    decreases cells.len(),
{
    if cells.len() == 0 {
        Seq::empty()
    } else {
        incident_cells(cells.drop_last(), v) + corner_hits(cells.last(), v, cells.len() - 1)
    }
}

/// Every cell listed as touching `v` exists and has a corner at `v`.
pub proof fn lemma_incident_cells_touch(cells: Seq<Triangle>, v: int)
    requires
        cells.len() <= usize::MAX,
    ensures
        forall|k: int|
            0 <= k < incident_cells(cells, v).len() ==> {
                &&& #[trigger] incident_cells(cells, v)[k] < cells.len()
                &&& cells[incident_cells(cells, v)[k] as int].has_corner(v)
            },
    decreases cells.len(),
{
    if cells.len() > 0 {
        lemma_incident_cells_touch(cells.drop_last(), v);
        let prev = incident_cells(cells.drop_last(), v);
        let hits = corner_hits(cells.last(), v, cells.len() - 1);
        lemma_corner_hits(cells.last(), v, cells.len() - 1);
        assert forall|k: int| 0 <= k < incident_cells(cells, v).len() implies {
            &&& #[trigger] incident_cells(cells, v)[k] < cells.len()
            &&& cells[incident_cells(cells, v)[k] as int].has_corner(v)
        } by {
            if k < prev.len() {
                assert(incident_cells(cells, v)[k] == prev[k]);
                assert(cells.drop_last()[prev[k] as int] == cells[prev[k] as int]);
            } else {
                assert(incident_cells(cells, v)[k] == hits[k - prev.len()]);
            }
        }
    }
}

/// `f` is a cell other than `current` with corners at both `spoke` and
/// `vertex`: the cell across the edge `spoke`-`vertex` from `current`.
pub open spec fn across_edge(cells: Seq<Triangle>, f: int, current: int, spoke: int, vertex: int) -> bool {
    &&& f != current
    &&& cells[f].has_corner(spoke)
    &&& cells[f].has_corner(vertex)
}

impl<V: MeshVector> Polyhedron<V> {
    /// For each vertex, the cells that touch it.
    #[verifier::spinoff_prover]
    #[verifier::rlimit(80)]
    pub fn vert_to_faces(&self) -> (r: Vec<Vec<usize>>)
        requires
            self.wf(),
        ensures
            r@.len() == self.spec_positions().len(),
            forall|v: int|
                0 <= v < r@.len() ==> (#[trigger] r@[v])@ == incident_cells(self.spec_cells(), v),
    {
        let n = self.positions().len();
        let cells = self.cells();
        let mut lists: Vec<Vec<usize>> = Vec::new();
        let mut v: usize = 0;
        while v < n
            invariant
                v <= n,
                lists@.len() == v,
                forall|u: int| 0 <= u < v ==> (#[trigger] lists@[u])@ == Seq::<usize>::empty(),
            decreases n - v,
        {
            lists.push(Vec::new());
            v = v + 1;
        }
        let mut t: usize = 0;
        while t < cells.len()
            invariant
                self.cells_in_range(),
                cells@ == self.spec_cells(),
                n == self.spec_positions().len(),
                t <= cells@.len(),
                lists@.len() == n,
                forall|u: int|
                    0 <= u < n ==> (#[trigger] lists@[u])@ == incident_cells(cells@.take(t as int), u),
            decreases cells@.len() - t,
        {
            let tri = cells[t];
            assert(self.spec_cells()[t as int].in_range(n as int));
            let ghost before = lists@;
            lists[tri.a].push(t);
            lists[tri.b].push(t);
            lists[tri.c].push(t);
            proof {
                assert(cells@.take(t + 1).drop_last() =~= cells@.take(t as int));
                assert forall|u: int| 0 <= u < n implies (#[trigger] lists@[u])@ == incident_cells(
                    cells@.take(t + 1),
                    u,
                ) by {
                    assert(lists@[u]@ =~= before[u]@ + corner_hits(tri, u, t as int));
                }
            }
            t = t + 1;
        }
        assert(cells@.take(cells@.len() as int) =~= cells@);
        lists
    }

    /// The first cell listed in `faces`, other than `current`, that has
    /// corners at both `spoke` and `vertex`.
    pub fn find_adjacent_face(
        &self,
        spoke: usize,
        vertex: usize,
        faces: &Vec<usize>,
        current: usize,
    ) -> (r: Option<usize>)
        requires
            self.wf(),
            forall|k: int| 0 <= k < faces@.len() ==> #[trigger] faces@[k] < self.spec_cells().len(),
        ensures
            match r {
                Some(f) => exists|k: int|
                    {
                        &&& 0 <= k < faces@.len()
                        &&& faces@[k] == f
                        &&& across_edge(self.spec_cells(), f as int, current as int, spoke as int, vertex as int)
                        &&& forall|k2: int|
                            0 <= k2 < k ==> !across_edge(
                                self.spec_cells(),
                                #[trigger] faces@[k2] as int,
                                current as int,
                                spoke as int,
                                vertex as int,
                            )
                    },
                None => forall|k: int|
                    0 <= k < faces@.len() ==> !across_edge(
                        self.spec_cells(),
                        #[trigger] faces@[k] as int,
                        current as int,
                        spoke as int,
                        vertex as int,
                    ),
            },
    {
        let cells = self.cells();
        let mut k: usize = 0;
        while k < faces.len()
            invariant
                cells@ == self.spec_cells(),
                k <= faces@.len(),
                forall|j: int| 0 <= j < faces@.len() ==> #[trigger] faces@[j] < cells@.len(),
                forall|k2: int|
                    0 <= k2 < k ==> !across_edge(
                        cells@,
                        #[trigger] faces@[k2] as int,
                        current as int,
                        spoke as int,
                        vertex as int,
                    ),
            decreases faces@.len() - k,
        {
            let f = faces[k];
            if f != current {
                let tri = cells[f];
                if (tri.a == spoke || tri.b == spoke || tri.c == spoke) && (tri.a == vertex
                    || tri.b == vertex || tri.c == vertex) {
                    return Some(f);
                }
            }
            k = k + 1;
        }
        None
    }

    /// The centroid of every cell, by cell index.
    pub fn triangle_centroids(&self) -> (r: Vec<V>)
        requires
            self.wf(),
        ensures
            r@.len() == self.spec_cells().len(),
            forall|t: int|
                0 <= t < r@.len() ==> #[trigger] r@[t] == cell_centroid(
                    self.spec_positions(),
                    self.spec_cells()[t],
                ),
            r@ == cell_centroids(*self),
    {
        let cells = self.cells();
        let positions = self.positions();
        let mut centroids: Vec<V> = Vec::new();
        let mut t: usize = 0;
        while t < cells.len()
            invariant
                self.wf(),
                cells@ == self.spec_cells(),
                positions@ == self.spec_positions(),
                t <= cells@.len(),
                centroids@.len() == t,
                forall|u: int|
                    0 <= u < t ==> #[trigger] centroids@[u] == cell_centroid(positions@, cells@[u]),
            decreases cells@.len() - t,
        {
            let tri = cells[t];
            assert(self.spec_cells()[t as int].in_range(positions@.len() as int));
            centroids.push(calculate_centroid(&positions[tri.a], &positions[tri.b], &positions[tri.c]));
            t = t + 1;
        }
        assert(centroids@ =~= cell_centroids(*self));
        centroids
    }
}

/// The centroid of triangle `a b c`: the midpoint of `a b`, moved a third of
/// the way towards `c`.
pub open spec fn spec_centroid<V: MeshVector>(a: V, b: V, c: V) -> V {
    a.spec_lerp(b, 1, 2).spec_lerp(c, 1, 3)
}

/// The centroid of cell `tri` over `positions`.
pub open spec fn cell_centroid<V: MeshVector>(positions: Seq<V>, tri: Triangle) -> V {
    spec_centroid(positions[tri.a as int], positions[tri.b as int], positions[tri.c as int])
}

/// The centroid of every cell of `mesh`, by cell index.
pub open spec fn cell_centroids<V: MeshVector>(mesh: Polyhedron<V>) -> Seq<V> {
    Seq::new(mesh.spec_cells().len(), |t: int| cell_centroid(mesh.spec_positions(), mesh.spec_cells()[t]))
}

/// The sum, from zero and in list order, of the centroids of the first `k`
/// listed cells.
#[verifier::opaque]
pub open spec fn sum_of_centroids<V: MeshVector>(cells: Seq<usize>, centroids: Seq<V>, k: int) -> V
    decreases k,
{
    if k <= 0 {
        V::spec_zero()
    } else {
        sum_of_centroids(cells, centroids, k - 1).spec_plus(centroids[cells[k - 1] as int])
    }
}

/// The centroid of triangle `a b c`.
pub fn calculate_centroid<V: MeshVector>(a: &V, b: &V, c: &V) -> (r: V)
    ensures
        r == spec_centroid(*a, *b, *c),
{
    let mid = a.lerp(b, 1, 2);
    mid.lerp(c, 1, 3)
}

/// The mean of the centroids of the listed cells: their sum, in list order,
/// divided by their number.
pub fn find_center_of_triangles<V: MeshVector>(cells: &Vec<usize>, centroids: &Vec<V>) -> (r: V)
    requires
        cells@.len() > 0,
        forall|k: int| 0 <= k < cells@.len() ==> #[trigger] cells@[k] < centroids@.len(),
    ensures
        r == sum_of_centroids(cells@, centroids@, cells@.len() as int).spec_divided_by(
            cells@.len() as usize,
        ),
{
    let mut center = V::zero();
    let mut k: usize = 0;
    proof {
        reveal(sum_of_centroids);
    }
    while k < cells.len()
        invariant
            k <= cells@.len(),
            forall|j: int| 0 <= j < cells@.len() ==> #[trigger] cells@[j] < centroids@.len(),
            center == sum_of_centroids(cells@, centroids@, k as int),
        decreases cells@.len() - k,
    {
        proof {
            reveal(sum_of_centroids);
        }
        center = center.plus(&centroids[cells[k]]);
        k = k + 1;
    }
    center.divided_by(cells.len())
}

} // verus!
