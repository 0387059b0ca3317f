use vstd::prelude::*;

use crate::mesh::{Polyhedron, Triangle};
use crate::vector::MeshVector;

verus! {

/// The normal of triangle `a b c`: the cross product of `a - b` and `c - b`,
/// turned to point away from the origin where it points towards it (the
/// mesh is taken to be star-shaped around the origin).
pub open spec fn spec_outward_normal<V: MeshVector>(a: V, b: V, c: V) -> V {
    let n = a.spec_minus(b).spec_cross(c.spec_minus(b));
    if n.spec_dot_is_negative(b) {
        n.spec_negated()
    } else {
        n
    }
}

/// The outward normal of cell `tri` over `positions`.
pub open spec fn cell_normal<V: MeshVector>(positions: Seq<V>, tri: Triangle) -> V {
    spec_outward_normal(positions[tri.a as int], positions[tri.b as int], positions[tri.c as int])
}

/// `normals` with `n` added to entry `v`.
pub open spec fn add_at<V: MeshVector>(normals: Seq<V>, v: int, n: V) -> Seq<V> {
    normals.update(v, normals[v].spec_plus(n))
}

/// `normals` with `n` added to the entries of the three corners of `tri`,
/// in corner order.
pub open spec fn add_to_corners<V: MeshVector>(normals: Seq<V>, tri: Triangle, n: V) -> Seq<V> {
    add_at(add_at(add_at(normals, tri.a as int, n), tri.b as int, n), tri.c as int, n)
}

/// `normals` with each cell's outward normal added to its corners, cell by
/// cell.
pub open spec fn accumulate_cell_normals<V: MeshVector>(
    normals: Seq<V>,
    cells: Seq<Triangle>,
    positions: Seq<V>,
) -> Seq<V>
    decreases cells.len(),
{
    if cells.len() == 0 {
        normals
    } else {
        add_to_corners(
            accumulate_cell_normals(normals, cells.drop_last(), positions),
            cells.last(),
            cell_normal(positions, cells.last()),
        )
    }
}

/// `normals` with `n` added to the corners of each listed cell, in order.
pub open spec fn accumulate_face<V: MeshVector>(
    normals: Seq<V>,
    face: Seq<usize>,
    cells: Seq<Triangle>,
    n: V,
) -> Seq<V>
    decreases face.len(),
{
    if face.len() == 0 {
        normals
    } else {
        add_to_corners(
            accumulate_face(normals, face.drop_last(), cells, n),
            cells[face.last() as int],
            n,
        )
    }
}

/// `normals` with, face by face, the outward normal of the face's first
/// cell added to the corners of all its cells.
pub open spec fn accumulate_face_normals<V: MeshVector>(
    normals: Seq<V>,
    faces: Seq<Seq<usize>>,
    cells: Seq<Triangle>,
    positions: Seq<V>,
) -> Seq<V>
    decreases faces.len(),
{
    if faces.len() == 0 {
        normals
    } else {
        accumulate_face(
            accumulate_face_normals(normals, faces.drop_last(), cells, positions),
            faces.last(),
            cells,
            cell_normal(positions, cells[faces.last()[0] as int]),
        )
    }
}

/// Every entry normalized.
pub open spec fn normalize_all<V: MeshVector>(normals: Seq<V>) -> Seq<V> {
    normals.map_values(|n: V| n.spec_normalized())
}

/// The outward normal of triangle `a b c`.
pub fn outward_normal<V: MeshVector>(a: &V, b: &V, c: &V) -> (r: V)
    ensures
        r == spec_outward_normal(*a, *b, *c),
{
    let e1 = a.minus(b);
    let e2 = c.minus(b);
    let normal = e1.cross(&e2);
    if normal.dot_is_negative(b) {
        normal.negated()
    } else {
        normal
    }
}

impl<V: MeshVector> Polyhedron<V> {
    /// Adds `n` to the normals of the three corners of cell `t`.
    fn accumulate_normal(&mut self, t: usize, n: &V)
        requires
            old(self).wf(),
            t < old(self).spec_cells().len(),
        ensures
            final(self).wf(),
            final(self).spec_normals() == add_to_corners(
                old(self).spec_normals(),
                old(self).spec_cells()[t as int],
                *n,
            ),
            final(self).spec_positions() == old(self).spec_positions(),
            final(self).weld_keys() == old(self).weld_keys(),
            final(self).spec_cells() == old(self).spec_cells(),
            final(self).spec_faces() == old(self).spec_faces(),
    {
        let tri = self.cells()[t];
        assert(self.spec_cells()[t as int].in_range(self.spec_positions().len() as int));
        let na = self.normals()[tri.a].plus(n);
        self.set_normal(tri.a, na);
        let nb = self.normals()[tri.b].plus(n);
        self.set_normal(tri.b, nb);
        let nc = self.normals()[tri.c].plus(n);
        self.set_normal(tri.c, nc);
    }

    /// Scales every normal to unit length.
    fn normalize_normals(&mut self)
        requires
            old(self).wf(),
        ensures
            final(self).wf(),
            final(self).spec_normals() == normalize_all(old(self).spec_normals()),
            final(self).spec_positions() == old(self).spec_positions(),
            final(self).weld_keys() == old(self).weld_keys(),
            final(self).spec_cells() == old(self).spec_cells(),
            final(self).spec_faces() == old(self).spec_faces(),
    {
        let ghost start = self.spec_normals();
        let mut i: usize = 0;
        while i < self.normals().len()
            invariant
                self.wf(),
                self.spec_normals().len() == start.len(),
                start == old(self).spec_normals(),
                i <= start.len(),
                forall|k: int| 0 <= k < i ==> #[trigger] self.spec_normals()[k] == start[k].spec_normalized(),
                forall|k: int| i <= k < start.len() ==> #[trigger] self.spec_normals()[k] == start[k],
                self.spec_positions() == old(self).spec_positions(),
                self.weld_keys() == old(self).weld_keys(),
                self.spec_cells() == old(self).spec_cells(),
                self.spec_faces() == old(self).spec_faces(),
            decreases self.spec_normals().len() - i,
        {
            let n = self.normals()[i].normalized();
            self.set_normal(i, n);
            i = i + 1;
        }
        assert(self.spec_normals() =~= normalize_all(start));
    }

    /// Smooth per-vertex normals: each cell's outward normal is added to the
    /// normals of its three corners, cell by cell, then every normal is
    /// scaled to unit length. Positions, cells and faces are left as they
    /// are.
    pub fn compute_triangle_normals(&mut self)
        requires
            old(self).wf(),
        ensures
            final(self).wf(),
            final(self).spec_normals() == normalize_all(
                accumulate_cell_normals(
                    old(self).spec_normals(),
                    old(self).spec_cells(),
                    old(self).spec_positions(),
                ),
            ),
            final(self).spec_positions() == old(self).spec_positions(),
            final(self).weld_keys() == old(self).weld_keys(),
            final(self).spec_cells() == old(self).spec_cells(),
            final(self).spec_faces() == old(self).spec_faces(),
    {
        let ghost cells0 = self.spec_cells();
        let ghost positions0 = self.spec_positions();
        let mut t: usize = 0;
        while t < self.cells().len()
            invariant
                self.wf(),
                cells0 == old(self).spec_cells(),
                positions0 == old(self).spec_positions(),
                t <= cells0.len(),
                self.spec_normals() == accumulate_cell_normals(
                    old(self).spec_normals(),
                    cells0.take(t as int),
                    positions0,
                ),
                self.spec_positions() == old(self).spec_positions(),
                self.weld_keys() == old(self).weld_keys(),
                self.spec_cells() == old(self).spec_cells(),
                self.spec_faces() == old(self).spec_faces(),
            decreases self.spec_cells().len() - t,
        {
            let tri = self.cells()[t];
            assert(self.spec_cells()[t as int].in_range(self.spec_positions().len() as int));
            let positions = self.positions();
            let n = outward_normal(&positions[tri.a], &positions[tri.b], &positions[tri.c]);
            self.accumulate_normal(t, &n);
            assert(cells0.take(t + 1).drop_last() =~= cells0.take(t as int));
            t = t + 1;
        }
        assert(cells0.take(cells0.len() as int) =~= cells0);
        self.normalize_normals();
    }

    /// Flat per-face normals: face by face, the outward normal of the
    /// face's first cell is added to the normals of all corners of all its
    /// cells, then every normal is scaled to unit length. Positions, cells
    /// and faces are left as they are.
    pub fn compute_face_normals(&mut self)
        requires
            old(self).wf(),
            forall|f: int| 0 <= f < old(self).spec_faces().len() ==> #[trigger] old(self).spec_faces()[f].len() > 0,
        ensures
            final(self).wf(),
            final(self).spec_normals() == normalize_all(
                accumulate_face_normals(
                    old(self).spec_normals(),
                    old(self).spec_faces(),
                    old(self).spec_cells(),
                    old(self).spec_positions(),
                ),
            ),
            final(self).spec_positions() == old(self).spec_positions(),
            final(self).weld_keys() == old(self).weld_keys(),
            final(self).spec_cells() == old(self).spec_cells(),
            final(self).spec_faces() == old(self).spec_faces(),
    {
        let ghost faces0 = self.spec_faces();
        let ghost cells0 = self.spec_cells();
        let ghost positions0 = self.spec_positions();
        let mut f: usize = 0;
        while f < self.faces().len()
            invariant
                self.wf(),
                faces0 == old(self).spec_faces(),
                cells0 == old(self).spec_cells(),
                positions0 == old(self).spec_positions(),
                f <= faces0.len(),
                forall|g: int| 0 <= g < self.spec_faces().len() ==> #[trigger] self.spec_faces()[g].len() > 0,
                self.spec_normals() == accumulate_face_normals(
                    old(self).spec_normals(),
                    faces0.take(f as int),
                    cells0,
                    positions0,
                ),
                self.spec_positions() == old(self).spec_positions(),
                self.weld_keys() == old(self).weld_keys(),
                self.spec_cells() == old(self).spec_cells(),
                self.spec_faces() == old(self).spec_faces(),
            decreases self.spec_faces().len() - f,
        {
            let face_len = self.faces()[f].len();
            assert(self.spec_faces()[f as int].len() > 0);
            assert(self.spec_faces()[f as int][0] < self.spec_cells().len());
            let first = self.cells()[self.faces()[f][0]];
            assert(first.in_range(self.spec_positions().len() as int));
            let positions = self.positions();
            let n = outward_normal(&positions[first.a], &positions[first.b], &positions[first.c]);
            let ghost face = faces0[f as int];
            let ghost before = self.spec_normals();
            let mut k: usize = 0;
            while k < face_len
                invariant
                    self.wf(),
                    f < faces0.len(),
                    face == faces0[f as int],
                    face_len == face.len(),
                    faces0 == old(self).spec_faces(),
                    cells0 == old(self).spec_cells(),
                    k <= face_len,
                    self.spec_normals() == accumulate_face(before, face.take(k as int), cells0, n),
                    forall|g: int| 0 <= g < self.spec_faces().len() ==> #[trigger] self.spec_faces()[g].len() > 0,
                    self.spec_positions() == old(self).spec_positions(),
                    self.weld_keys() == old(self).weld_keys(),
                    self.spec_cells() == old(self).spec_cells(),
                    self.spec_faces() == old(self).spec_faces(),
                decreases face_len - k,
            {
                assert(self.spec_faces()[f as int][k as int] < self.spec_cells().len());
                let t = self.faces()[f][k];
                self.accumulate_normal(t, &n);
                assert(face.take(k + 1).drop_last() =~= face.take(k as int));
                k = k + 1;
            }
            proof {
                assert(face.take(face.len() as int) =~= face);
                assert(faces0.take(f + 1).drop_last() =~= faces0.take(f as int));
                assert(faces0.take(f + 1).last() == face);
            }
            f = f + 1;
        }
        assert(faces0.take(faces0.len() as int) =~= faces0);
        self.normalize_normals();
    }
}

} // verus!
