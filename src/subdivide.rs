use vstd::arithmetic::power::pow;
use vstd::prelude::*;

use crate::mesh::{weld_key_of, Polyhedron, Triangle};
use crate::vector::{GoldenCoord, MeshVector, WeldKey, WELD_PRECISION};

verus! {

/// `rows` is a triangular lattice with `n` subdivisions per edge: rows
/// `0 ..= n`, row `i` holding `n - i + 1` points.
pub open spec fn lattice_shaped<T>(rows: Seq<Vec<T>>, n: int) -> bool {
    &&& rows.len() == n + 1
    &&& forall|i: int| 0 <= i <= n ==> #[trigger] rows[i]@.len() == n - i + 1
}

/// Key `k` is the weld key of some point of the lattice `keys` with `n`
/// subdivisions per edge.
pub open spec fn in_lattice(keys: Seq<Vec<WeldKey>>, n: int, k: WeldKey) -> bool {
    exists|i: int, j: int| 0 <= i <= n && 0 <= j <= n - i && #[trigger] keys[i]@[j] == k
}

/// `keys` holds the weld key of each point of `points`.
pub open spec fn keys_of_points<V: MeshVector>(points: Seq<Vec<V>>, keys: Seq<Vec<WeldKey>>, n: int) -> bool {
    forall|i: int, j: int|
        0 <= i <= n && 0 <= j <= n - i ==> #[trigger] keys[i]@[j] == weld_key_of(points[i]@[j])
}

/// Number of triangles a lattice with `n` subdivisions per edge emits before
/// row `i`: rows `r < i` emit `2 * (n - r) - 1` each.
pub open spec fn lattice_offset(n: int, i: int) -> int {
    i * (2 * n - i)
}

/// Weld keys of the corners of triangle `j` of lattice row `i`: even `j`
/// gives an upward triangle, odd `j` a downward one.
pub open spec fn lattice_corner_keys(keys: Seq<Vec<WeldKey>>, i: int, j: int) -> (
    WeldKey,
    WeldKey,
    WeldKey,
) {
    let k = j / 2;
    if j % 2 == 0 {
        (keys[i]@[k + 1], keys[i + 1]@[k], keys[i]@[k])
    } else {
        (keys[i]@[k + 1], keys[i + 1]@[k + 1], keys[i + 1]@[k])
    }
}

/// Point `j` of row `i` of the lattice over triangle `a b c` with `n`
/// subdivisions per edge, on the sphere of the given radius.
pub open spec fn lattice_point<V: MeshVector>(
    a: V,
    b: V,
    c: V,
    radius: V::Scalar,
    n: nat,
    i: nat,
    j: nat,
) -> V {
    let aj = a.spec_lerp(c, i as usize, n as usize);
    let bj = b.spec_lerp(c, i as usize, n as usize);
    if j == 0 && i == n {
        aj.spec_on_sphere(radius)
    } else {
        aj.spec_lerp(bj, j as usize, (n - i) as usize).spec_on_sphere(radius)
    }
}

/// The points of a triangle's lattice, projected onto the sphere of the given
/// radius. Row `i` runs from `lerp(a, c, i / n)` to `lerp(b, c, i / n)`; the
/// last row is the single point over `c`.
pub fn lattice<V: MeshVector>(a: &V, b: &V, c: &V, radius: V::Scalar, n: usize) -> (r: Vec<Vec<V>>)
    requires
        1 <= n < usize::MAX,
    ensures
        lattice_shaped(r@, n as int),
        forall|i: int, j: int|
            0 <= i <= n && 0 <= j <= n - i ==> #[trigger] r@[i]@[j] == lattice_point(
                *a,
                *b,
                *c,
                radius,
                n as nat,
                i as nat,
                j as nat,
            ),
{
    let mut rows: Vec<Vec<V>> = Vec::new();
    let mut i: usize = 0;
    while i <= n
        invariant
            i <= n + 1,
            n < usize::MAX,
            rows@.len() == i,
            forall|r: int| 0 <= r < i ==> #[trigger] rows@[r]@.len() == n - r + 1,
            forall|r: int, j: int|
                0 <= r < i && 0 <= j <= n - r ==> #[trigger] rows@[r]@[j] == lattice_point(
                    *a,
                    *b,
                    *c,
                    radius,
                    n as nat,
                    r as nat,
                    j as nat,
                ),
        decreases n + 1 - i,
    {
        let aj = a.lerp(c, i, n);
        let bj = b.lerp(c, i, n);
        let width = n - i;
        let mut row: Vec<V> = Vec::new();
        let mut j: usize = 0;
        while j <= width
            invariant
                j <= width + 1,
                width == n - i,
                i <= n < usize::MAX,
                row@.len() == j,
                aj == a.spec_lerp(*c, i, n),
                bj == b.spec_lerp(*c, i, n),
                forall|k: int|
                    0 <= k < j ==> #[trigger] row@[k] == lattice_point(
                        *a,
                        *b,
                        *c,
                        radius,
                        n as nat,
                        i as nat,
                        k as nat,
                    ),
            decreases width + 1 - j,
        {
            if j == 0 && i == n {
                row.push(aj.on_sphere(radius));
            } else {
                row.push(aj.lerp(&bj, j, width).on_sphere(radius));
            }
            j = j + 1;
        }
        rows.push(row);
        i = i + 1;
    }
    rows
}

/// The weld key of every point of a lattice, in the same shape.
pub fn lattice_keys<V: MeshVector>(points: &Vec<Vec<V>>, n: usize) -> (r: Vec<Vec<WeldKey>>)
    requires
        lattice_shaped(points@, n as int),
        n < usize::MAX,
    ensures
        lattice_shaped(r@, n as int),
        forall|i: int, j: int|
            0 <= i <= n && 0 <= j <= n - i ==> #[trigger] r@[i]@[j] == points@[i]@[j].spec_weld_key(
                WELD_PRECISION,
            ),
{
    let mut rows: Vec<Vec<WeldKey>> = Vec::new();
    let mut i: usize = 0;
    while i <= n
        invariant
            i <= n + 1,
            n < usize::MAX,
            lattice_shaped(points@, n as int),
            rows@.len() == i,
            forall|r: int| 0 <= r < i ==> #[trigger] rows@[r]@.len() == n - r + 1,
            forall|r: int, j: int|
                0 <= r < i && 0 <= j <= n - r ==> #[trigger] rows@[r]@[j] == points@[r]@[j].spec_weld_key(
                    WELD_PRECISION,
                ),
        decreases n + 1 - i,
    {
        let pts = &points[i];
        let mut row: Vec<WeldKey> = Vec::new();
        let mut j: usize = 0;
        while j < pts.len()
            invariant
                j <= pts@.len(),
                row@.len() == j,
                forall|k: int|
                    0 <= k < j ==> #[trigger] row@[k] == pts@[k].spec_weld_key(WELD_PRECISION),
            decreases pts@.len() - j,
        {
            row.push(pts[j].weld_key(WELD_PRECISION));
            j = j + 1;
        }
        rows.push(row);
        i = i + 1;
    }
    rows
}

impl<V: MeshVector> Polyhedron<V> {
    /// Emits triangle `j` of lattice row `i`, welding its corners.
    fn add_lattice_triangle(
        &mut self,
        points: &Vec<Vec<V>>,
        keys: &Vec<Vec<WeldKey>>,
        n: usize,
        i: usize,
        j: usize,
    )
        requires
            old(self).wf(),
            lattice_shaped(points@, n as int),
            lattice_shaped(keys@, n as int),
            keys_of_points(points@, keys@, n as int),
            i < n,
            j < 2 * (n - i) - 1,
        ensures
            final(self).wf(),
            final(self).grows_from(old(self)),
            final(self).spec_faces() == old(self).spec_faces(),
            final(self).spec_cells().len() == old(self).spec_cells().len() + 1,
            final(self).cell_keys(old(self).spec_cells().len() as int) == lattice_corner_keys(
                keys@,
                i as int,
                j as int,
            ),
            forall|r2: int|
                old(self).spec_positions().len() <= r2 < final(self).spec_positions().len()
                    ==> in_lattice(keys@, n as int, #[trigger] final(self).weld_keys()[r2]),
    {
        let k = j / 2;
        assert(keys@[i as int]@.len() == n - i + 1);
        assert(keys@[i + 1]@.len() == n - i);
        let (p, q, r) = if j % 2 == 0 {
            (
                self.add_lattice_point(points, keys, n, i, k + 1),
                self.add_lattice_point(points, keys, n, i + 1, k),
                self.add_lattice_point(points, keys, n, i, k),
            )
        } else {
            (
                self.add_lattice_point(points, keys, n, i, k + 1),
                self.add_lattice_point(points, keys, n, i + 1, k + 1),
                self.add_lattice_point(points, keys, n, i + 1, k),
            )
        };
        self.push_cell(Triangle::new(p, q, r));
    }

    /// Registers point `j` of lattice row `i` under its weld key.
    fn add_lattice_point(
        &mut self,
        points: &Vec<Vec<V>>,
        keys: &Vec<Vec<WeldKey>>,
        n: usize,
        i: usize,
        j: usize,
    ) -> (r: usize)
        requires
            old(self).wf(),
            lattice_shaped(points@, n as int),
            lattice_shaped(keys@, n as int),
            keys_of_points(points@, keys@, n as int),
            i <= n,
            j <= n - i,
        ensures
            final(self).wf(),
            final(self).grows_from(old(self)),
            final(self).spec_faces() == old(self).spec_faces(),
            final(self).spec_cells() == old(self).spec_cells(),
            r < final(self).spec_positions().len(),
            final(self).weld_keys()[r as int] == keys@[i as int]@[j as int],
            forall|r2: int|
                old(self).spec_positions().len() <= r2 < final(self).spec_positions().len()
                    ==> in_lattice(keys@, n as int, #[trigger] final(self).weld_keys()[r2]),
    {
        assert(keys@[i as int]@.len() == n - i + 1);
        assert(points@[i as int]@.len() == n - i + 1);
        let r = self.add_position(points[i][j]);
        proof {
            assert(in_lattice(keys@, n as int, keys@[i as int]@[j as int]));
        }
        r
    }

    /// Emits the triangles of a lattice with `n` subdivisions per edge, row by
    /// row, welding shared points through the weld cache. Row `i` holds
    /// `2 * (n - i) - 1` triangles, `n * n` in all.
    pub fn add_lattice(&mut self, points: &Vec<Vec<V>>, keys: &Vec<Vec<WeldKey>>, n: usize)
        requires
            old(self).wf(),
            lattice_shaped(points@, n as int),
            lattice_shaped(keys@, n as int),
            keys_of_points(points@, keys@, n as int),
            1 <= n,
            2 * n <= usize::MAX,
        ensures
            final(self).wf(),
            final(self).grows_from(old(self)),
            final(self).spec_faces() == old(self).spec_faces(),
            final(self).spec_cells().len() == old(self).spec_cells().len() + n * n,
            2 * final(self).spec_positions().len() <= 2 * old(self).spec_positions().len() + (n + 1)
                * (n + 2),
            forall|r: int|
                old(self).spec_positions().len() <= r < final(self).spec_positions().len()
                    ==> in_lattice(keys@, n as int, #[trigger] final(self).weld_keys()[r]),
            forall|i: int, j: int|
                0 <= i < n && 0 <= j < 2 * (n - i) - 1 ==> final(self).cell_keys(
                    old(self).spec_cells().len() + lattice_offset(n as int, i) + j,
                ) == #[trigger] lattice_corner_keys(keys@, i, j),
    {
        let ghost start = old(self).spec_cells().len() as int;
        let mut i: usize = 0;
        while i < n
            invariant
                i <= n,
                2 * n <= usize::MAX,
                lattice_shaped(points@, n as int),
                lattice_shaped(keys@, n as int),
                keys_of_points(points@, keys@, n as int),
                self.wf(),
                self.grows_from(old(self)),
                self.spec_faces() == old(self).spec_faces(),
                start == old(self).spec_cells().len(),
                self.spec_cells().len() == start + lattice_offset(n as int, i as int),
                forall|r: int|
                    old(self).spec_positions().len() <= r < self.spec_positions().len()
                        ==> in_lattice(keys@, n as int, #[trigger] self.weld_keys()[r]),
                forall|i2: int, j2: int|
                    0 <= i2 < i && 0 <= j2 < 2 * (n - i2) - 1 ==> self.cell_keys(
                        start + lattice_offset(n as int, i2) + j2,
                    ) == #[trigger] lattice_corner_keys(keys@, i2, j2),
            decreases n - i,
        {
            let row_len = 2 * (n - i) - 1;
            let mut j: usize = 0;
            while j < row_len
                invariant
                    i < n,
                    j <= row_len,
                    row_len == 2 * (n - i) - 1,
                    lattice_shaped(points@, n as int),
                    lattice_shaped(keys@, n as int),
                    keys_of_points(points@, keys@, n as int),
                    self.wf(),
                    self.grows_from(old(self)),
                    self.spec_faces() == old(self).spec_faces(),
                    start == old(self).spec_cells().len(),
                    self.spec_cells().len() == start + lattice_offset(n as int, i as int) + j,
                    forall|r: int|
                        old(self).spec_positions().len() <= r < self.spec_positions().len()
                            ==> in_lattice(keys@, n as int, #[trigger] self.weld_keys()[r]),
                    forall|i2: int, j2: int|
                        (0 <= i2 < i && 0 <= j2 < 2 * (n - i2) - 1) || (i2 == i && 0 <= j2 < j)
                            ==> self.cell_keys(start + lattice_offset(n as int, i2) + j2)
                            == #[trigger] lattice_corner_keys(keys@, i2, j2),
                decreases row_len - j,
            {
                let ghost before = *self;
                self.add_lattice_triangle(points, keys, n, i, j);
                proof {
                    self.lemma_grows_keeps_cell_keys(&before);
                    self.lemma_grows_trans(&before, old(self));
                    assert forall|i2: int, j2: int|
                        (0 <= i2 < i && 0 <= j2 < 2 * (n - i2) - 1) || (i2 == i && 0 <= j2 < j + 1)
                            implies self.cell_keys(start + lattice_offset(n as int, i2) + j2)
                            == #[trigger] lattice_corner_keys(keys@, i2, j2) by {
                        if i2 < i {
                            assert(lattice_offset(n as int, i2) + j2 < lattice_offset(n as int, i as int)) by (nonlinear_arith)
                                requires
                                    0 <= i2 < i,
                                    0 <= j2 < 2 * (n - i2) - 1,
                                    i < n,
                            {
                                assert(lattice_offset(n as int, i2 + 1) <= lattice_offset(n as int, i as int));
                            }
                        }
                    }
                }
                j = j + 1;
            }
            proof {
                assert(lattice_offset(n as int, i as int) + 2 * (n - i) - 1 == lattice_offset(
                    n as int,
                    i + 1,
                )) by (nonlinear_arith);
            }
            i = i + 1;
        }
        proof {
            assert(lattice_offset(n as int, n as int) == n * n) by (nonlinear_arith);
            let lo = old(self).spec_positions().len() as int;
            let found = self.weld_keys().subrange(lo, self.spec_positions().len() as int);
            assert forall|a: int, b: int| 0 <= a < found.len() && 0 <= b < found.len() && a != b implies found[a]
                != found[b] by {
                assert(self.weld_keys()[lo + a] != self.weld_keys()[lo + b]);
            }
            assert forall|r: int| 0 <= r < found.len() implies in_lattice(keys@, n as int, #[trigger] found[r]) by {
                assert(in_lattice(keys@, n as int, self.weld_keys()[lo + r]));
            }
            lemma_lattice_bounds_keys(keys@, n as int, found);
        }
    }
}

} // verus!

verus! {

/// The weld key of point `j` of row `i` of the lattice over `a b c`.
pub open spec fn point_key<V: MeshVector>(
    a: V,
    b: V,
    c: V,
    radius: V::Scalar,
    n: nat,
    i: int,
    j: int,
) -> WeldKey {
    lattice_point(a, b, c, radius, n, i as nat, j as nat).spec_weld_key(WELD_PRECISION)
}

/// Weld keys of the corners of triangle `j` of row `i` of the lattice over
/// `a b c` (see `lattice_corner_keys`).
pub open spec fn triangle_corner_keys<V: MeshVector>(
    a: V,
    b: V,
    c: V,
    radius: V::Scalar,
    n: nat,
    i: int,
    j: int,
) -> (WeldKey, WeldKey, WeldKey) {
    let k = j / 2;
    if j % 2 == 0 {
        (
            point_key(a, b, c, radius, n, i, k + 1),
            point_key(a, b, c, radius, n, i + 1, k),
            point_key(a, b, c, radius, n, i, k),
        )
    } else {
        (
            point_key(a, b, c, radius, n, i, k + 1),
            point_key(a, b, c, radius, n, i + 1, k + 1),
            point_key(a, b, c, radius, n, i + 1, k),
        )
    }
}

/// Cells `start ..` of `mesh` are the `n * n` triangles of the lattice over
/// triangle `a b c` with `n` subdivisions per edge on the sphere of the
/// given radius, in the order `add_lattice` emits them.
pub open spec fn subdivided_block<V: MeshVector>(
    mesh: Polyhedron<V>,
    start: int,
    n: nat,
    a: V,
    b: V,
    c: V,
    radius: V::Scalar,
) -> bool {
    &&& 0 <= start
    &&& start + n * n <= mesh.spec_cells().len()
    &&& forall|i: int, j: int|
        0 <= i < n && 0 <= j < 2 * (n - i) - 1 ==> mesh.cell_keys(start + lattice_offset(n as int, i) + j)
            == #[trigger] triangle_corner_keys(a, b, c, radius, n, i, j)
}

/// Block `t` of the subdivision of `source` at level `detail` appended
/// from cell `base` on: the lattice over `source`'s triangle `t`.
pub open spec fn subdivision_block<V: MeshVector>(
    mesh: Polyhedron<V>,
    base: int,
    t: int,
    detail: nat,
    source: Polyhedron<V>,
    radius: V::Scalar,
) -> bool {
    let tri = source.spec_cells()[t];
    let ps = source.spec_positions();
    subdivided_block(
        mesh,
        base + t * pow(4, detail),
        pow(2, detail) as nat,
        ps[tri.a as int],
        ps[tri.b as int],
        ps[tri.c as int],
        radius,
    )
}

/// `base` is a base icosahedron: twenty cells, cell `t` being face `t` of
/// the icosahedron over twelve position indices, index `m` registered
/// under the weld key of corner `m`.
pub open spec fn base_shaped<V: MeshVector>(base: Polyhedron<V>) -> bool {
    &&& base.wf()
    &&& base.spec_cells().len() == 20
    &&& exists|corners: Seq<usize>|
        {
            &&& corners.len() == 12
            &&& forall|m: int|
                0 <= m < 12 ==> base.weld_keys()[#[trigger] corners[m] as int]
                    == icosahedron_corner::<V>(m).spec_weld_key(WELD_PRECISION)
            &&& forall|t: int|
                0 <= t < 20 ==> #[trigger] base.spec_cells()[t] == relabel(
                    icosahedron_faces()[t],
                    corners,
                )
        }
}

/// `mesh` is the geodesic sphere of the given radius and detail level: the
/// lattices of the twenty triangles of a base icosahedron, in order.
pub open spec fn is_geodesic_sphere<V: MeshVector>(
    mesh: Polyhedron<V>,
    radius: V::Scalar,
    detail: nat,
) -> bool {
    exists|base: Polyhedron<V>|
        #[trigger] base_shaped(base) && forall|t: int|
            0 <= t < 20 ==> #[trigger] subdivision_block(mesh, 0, t, detail, base, radius)
}

/// The weld keys of rows `0 .. m` of a lattice.
pub open spec fn lattice_key_set(keys: Seq<Vec<WeldKey>>, m: int) -> Set<WeldKey>
    decreases m,
{
    if m <= 0 {
        Set::empty()
    } else {
        lattice_key_set(keys, m - 1).union(keys[m - 1]@.to_set())
    }
}

proof fn lemma_lattice_key_set(keys: Seq<Vec<WeldKey>>, n: int, m: int)
    requires
        lattice_shaped(keys, n),
        0 <= m <= n + 1,
    ensures
        lattice_key_set(keys, m).finite(),
        2 * lattice_key_set(keys, m).len() <= m * (2 * n + 3 - m),
        forall|i: int, j: int|
            0 <= i < m && 0 <= j <= n - i ==> lattice_key_set(keys, m).contains(
                #[trigger] keys[i]@[j],
            ),
    decreases m,
{
    if m > 0 {
        lemma_lattice_key_set(keys, n, m - 1);
        let prev = lattice_key_set(keys, m - 1);
        let row = keys[m - 1]@;
        row.lemma_cardinality_of_set();
        vstd::set_lib::lemma_len_union(prev, row.to_set());
        assert(row.len() == n - (m - 1) + 1);
        assert(2 * (n - m + 2) + (m - 1) * (2 * n + 3 - (m - 1)) == m * (2 * n + 3 - m)) by (nonlinear_arith);
        assert forall|i: int, j: int| 0 <= i < m && 0 <= j <= n - i implies lattice_key_set(keys, m).contains(
            #[trigger] keys[i]@[j],
        ) by {
            if i == m - 1 {
                assert(row.to_set().contains(row[j]));
            }
        }
    }
}

/// Distinct keys that all belong to a lattice with `n` subdivisions per
/// edge number at most its `(n + 1) * (n + 2) / 2` points.
proof fn lemma_lattice_bounds_keys(keys: Seq<Vec<WeldKey>>, n: int, found: Seq<WeldKey>)
    requires
        lattice_shaped(keys, n),
        0 <= n,
        found.no_duplicates(),
        forall|r: int| 0 <= r < found.len() ==> in_lattice(keys, n, #[trigger] found[r]),
    ensures
        2 * found.len() <= (n + 1) * (n + 2),
{
    lemma_lattice_key_set(keys, n, n + 1);
    let all = lattice_key_set(keys, n + 1);
    assert forall|k: WeldKey| found.to_set().contains(k) implies all.contains(k) by {
        let r = choose|r: int| 0 <= r < found.len() && found[r] == k;
        assert(in_lattice(keys, n, found[r]));
        let (i, j) = choose|i: int, j: int| 0 <= i <= n && 0 <= j <= n - i && #[trigger] keys[i]@[j] == k;
        assert(all.contains(keys[i]@[j]));
    }
    vstd::set_lib::lemma_len_subset(found.to_set(), all);
    found.unique_seq_to_set();
    assert((n + 1) * (2 * n + 3 - (n + 1)) == (n + 1) * (n + 2)) by (nonlinear_arith);
}

proof fn lemma_lattice_offset_bound(n: int, i: int, j: int)
    requires
        0 <= i < n,
        0 <= j < 2 * (n - i) - 1,
    ensures
        0 <= lattice_offset(n, i) + j < n * n,
{
    assert(0 <= i * (2 * n - i) + j < n * n) by (nonlinear_arith)
        requires
            0 <= i < n,
            0 <= j < 2 * (n - i) - 1,
    ;
}

/// Growing a mesh keeps its lattice blocks.
pub proof fn lemma_grows_keeps_subdivided_block<V: MeshVector>(
    after: Polyhedron<V>,
    before: Polyhedron<V>,
    start: int,
    n: nat,
    a: V,
    b: V,
    c: V,
    radius: V::Scalar,
)
    requires
        before.wf(),
        after.grows_from(&before),
        subdivided_block(before, start, n, a, b, c, radius),
    ensures
        subdivided_block(after, start, n, a, b, c, radius),
{
    after.lemma_grows_keeps_cell_keys(&before);
    assert forall|i: int, j: int| 0 <= i < n && 0 <= j < 2 * (n - i) - 1 implies after.cell_keys(
        start + lattice_offset(n as int, i) + j,
    ) == #[trigger] triangle_corner_keys(a, b, c, radius, n, i, j) by {
        lemma_lattice_offset_bound(n as int, i, j);
        assert(before.cell_keys(start + lattice_offset(n as int, i) + j) == triangle_corner_keys(a, b, c, radius, n, i, j));
    }
}

/// `(2^d)^2 == 4^d`.
pub proof fn lemma_pow2_squared(d: nat)
    ensures
        pow(2, d) * pow(2, d) == pow(4, d),
        1 <= pow(2, d) <= pow(4, d),
    decreases d,
{
    reveal(pow);
    if d > 0 {
        lemma_pow2_squared((d - 1) as nat);
        let p = pow(2, (d - 1) as nat);
        assert(2 * p * (2 * p) == 4 * (p * p)) by (nonlinear_arith);
        assert(pow(2, d) <= pow(4, d)) by (nonlinear_arith)
            requires
                pow(2, d) == 2 * p,
                pow(4, d) == 4 * (p * p),
                1 <= p,
        ;
    }
}

/// `2^detail`, the number of subdivisions of each edge at a detail level.
fn subdivisions(detail: usize) -> (r: usize)
    requires
        pow(2, detail as nat) <= usize::MAX,
    ensures
        r == pow(2, detail as nat),
{
    let mut cols: usize = 1;
    let mut e: usize = 0;
    proof {
        reveal(pow);
    }
    while e < detail
        invariant
            e <= detail,
            cols == pow(2, e as nat),
            pow(2, detail as nat) <= usize::MAX,
        decreases detail - e,
    {
        proof {
            reveal(pow);
            vstd::arithmetic::power::lemma_pow_increases(2, (e + 1) as nat, detail as nat);
        }
        cols = cols * 2;
        e = e + 1;
    }
    cols
}

impl<V: MeshVector> Polyhedron<V> {
    /// Subdivides triangle `a b c` into a lattice of `4^detail` triangles
    /// whose points lie on the sphere of the given radius, and emits them.
    pub fn subdivide_triangle(&mut self, a: &V, b: &V, c: &V, radius: V::Scalar, detail: usize)
        requires
            old(self).wf(),
            2 * pow(2, detail as nat) <= usize::MAX,
        ensures
            final(self).wf(),
            final(self).grows_from(old(self)),
            final(self).spec_faces() == old(self).spec_faces(),
            final(self).spec_cells().len() == old(self).spec_cells().len() + pow(4, detail as nat),
            subdivided_block(
                *final(self),
                old(self).spec_cells().len() as int,
                pow(2, detail as nat) as nat,
                *a,
                *b,
                *c,
                radius,
            ),
            2 * final(self).spec_positions().len() <= 2 * old(self).spec_positions().len() + (pow(
                2,
                detail as nat,
            ) + 1) * (pow(2, detail as nat) + 2),
    {
        proof {
            lemma_pow2_squared(detail as nat);
        }
        let cols = subdivisions(detail);
        let points = lattice(a, b, c, radius, cols);
        let keys = lattice_keys(&points, cols);
        self.add_lattice(&points, &keys, cols);
        proof {
            let n = cols as nat;
            assert forall|i: int, j: int| 0 <= i < n && 0 <= j < 2 * (n - i) - 1 implies
                #[trigger] lattice_corner_keys(keys@, i, j) == triangle_corner_keys(*a, *b, *c, radius, n, i, j) by {
                let k = j / 2;
                assert(0 <= k <= n - i - 1);
                assert(keys@[i]@[k + 1] == point_key(*a, *b, *c, radius, n, i, k + 1));
                assert(keys@[i]@[k] == point_key(*a, *b, *c, radius, n, i, k));
                assert(keys@[i + 1]@[k] == point_key(*a, *b, *c, radius, n, i + 1, k));
                if j % 2 == 1 {
                    assert(keys@[i + 1]@[k + 1] == point_key(*a, *b, *c, radius, n, i + 1, k + 1));
                }
            }
            let start = old(self).spec_cells().len() as int;
            assert forall|i: int, j: int| 0 <= i < n && 0 <= j < 2 * (n - i) - 1 implies self.cell_keys(
                start + lattice_offset(n as int, i) + j,
            ) == #[trigger] triangle_corner_keys(*a, *b, *c, radius, n, i, j) by {
                assert(lattice_corner_keys(keys@, i, j) == triangle_corner_keys(*a, *b, *c, radius, n, i, j));
            }
            assert(n * n == pow(4, detail as nat));
        }
    }

    /// Subdivides every triangle of `other` at the given detail level,
    /// projecting the new points onto the sphere of the given radius.
    pub fn subdivide(&mut self, other: &Polyhedron<V>, radius: V::Scalar, detail: usize)
        requires
            old(self).wf(),
            other.wf(),
            2 * pow(2, detail as nat) <= usize::MAX,
        ensures
            final(self).wf(),
            final(self).grows_from(old(self)),
            final(self).spec_faces() == old(self).spec_faces(),
            final(self).spec_cells().len() == old(self).spec_cells().len() + other.spec_cells().len()
                * pow(4, detail as nat),
            forall|t: int|
                0 <= t < other.spec_cells().len() ==> #[trigger] subdivision_block(
                    *final(self),
                    old(self).spec_cells().len() as int,
                    t,
                    detail as nat,
                    *other,
                    radius,
                ),
    {
        let cells = other.cells();
        let positions = other.positions();
        let mut t: usize = 0;
        while t < cells.len()
            invariant
                other.wf(),
                cells@ == other.spec_cells(),
                positions@ == other.spec_positions(),
                t <= cells@.len(),
                2 * pow(2, detail as nat) <= usize::MAX,
                self.wf(),
                self.grows_from(old(self)),
                self.spec_faces() == old(self).spec_faces(),
                self.spec_cells().len() == old(self).spec_cells().len() + t * pow(4, detail as nat),
                forall|u: int|
                    0 <= u < t ==> #[trigger] subdivision_block(
                        *self,
                        old(self).spec_cells().len() as int,
                        u,
                        detail as nat,
                        *other,
                        radius,
                    ),
            decreases cells@.len() - t,
        {
            let tri = cells[t];
            assert(other.spec_cells()[t as int].in_range(other.spec_positions().len() as int));
            let ghost before = *self;
            self.subdivide_triangle(&positions[tri.a], &positions[tri.b], &positions[tri.c], radius, detail);
            proof {
                self.lemma_grows_trans(&before, old(self));
                assert((t + 1) * pow(4, detail as nat) == t * pow(4, detail as nat) + pow(4, detail as nat)) by (nonlinear_arith);
                let base = old(self).spec_cells().len() as int;
                assert forall|u: int| 0 <= u < t + 1 implies #[trigger] subdivision_block(
                    *self,
                    base,
                    u,
                    detail as nat,
                    *other,
                    radius,
                ) by {
                    let tri = other.spec_cells()[u];
                    let ps = other.spec_positions();
                    if u < t {
                        assert(subdivision_block(before, base, u, detail as nat, *other, radius));
                        lemma_grows_keeps_subdivided_block(
                            *self,
                            before,
                            base + u * pow(4, detail as nat),
                            pow(2, detail as nat) as nat,
                            ps[tri.a as int],
                            ps[tri.b as int],
                            ps[tri.c as int],
                            radius,
                        );
                    }
                }
            }
            t = t + 1;
        }
    }
}

} // verus!

verus! {

/// The faces of the base icosahedron over its twelve corners, each listed
/// counter-clockwise as seen from outside.
pub open spec fn icosahedron_faces() -> Seq<Triangle> {
    seq![
        Triangle { a: 0, b: 11, c: 5 },
        Triangle { a: 0, b: 5, c: 1 },
        Triangle { a: 0, b: 1, c: 7 },
        Triangle { a: 0, b: 7, c: 10 },
        Triangle { a: 0, b: 10, c: 11 },
        Triangle { a: 1, b: 5, c: 9 },
        Triangle { a: 5, b: 11, c: 4 },
        Triangle { a: 11, b: 10, c: 2 },
        Triangle { a: 10, b: 7, c: 6 },
        Triangle { a: 7, b: 1, c: 8 },
        Triangle { a: 3, b: 9, c: 4 },
        Triangle { a: 3, b: 4, c: 2 },
        Triangle { a: 3, b: 2, c: 6 },
        Triangle { a: 3, b: 6, c: 8 },
        Triangle { a: 3, b: 8, c: 9 },
        Triangle { a: 4, b: 9, c: 5 },
        Triangle { a: 2, b: 4, c: 11 },
        Triangle { a: 6, b: 2, c: 10 },
        Triangle { a: 8, b: 6, c: 7 },
        Triangle { a: 9, b: 8, c: 1 },
    ]
}

/// Triangle `f` of the base icosahedron over the position indices `corners`.
pub open spec fn relabel(f: Triangle, corners: Seq<usize>) -> Triangle {
    Triangle { a: corners[f.a as int], b: corners[f.b as int], c: corners[f.c as int] }
}

/// The base icosahedron's faces.
pub fn base_icosahedron_faces() -> (r: Vec<Triangle>)
    ensures
        r@ == icosahedron_faces(),
{
    let r = vec![
        Triangle::new(0, 11, 5),
        Triangle::new(0, 5, 1),
        Triangle::new(0, 1, 7),
        Triangle::new(0, 7, 10),
        Triangle::new(0, 10, 11),
        Triangle::new(1, 5, 9),
        Triangle::new(5, 11, 4),
        Triangle::new(11, 10, 2),
        Triangle::new(10, 7, 6),
        Triangle::new(7, 1, 8),
        Triangle::new(3, 9, 4),
        Triangle::new(3, 4, 2),
        Triangle::new(3, 2, 6),
        Triangle::new(3, 6, 8),
        Triangle::new(3, 8, 9),
        Triangle::new(4, 9, 5),
        Triangle::new(2, 4, 11),
        Triangle::new(6, 2, 10),
        Triangle::new(8, 6, 7),
        Triangle::new(9, 8, 1),
    ];
    assert(r@ =~= icosahedron_faces());
    r
}

/// The coordinate `units + phis * φ`.
pub open spec fn gc(units: int, phis: int) -> GoldenCoord {
    GoldenCoord { units: units as i8, phis: phis as i8 }
}

/// The coordinates of corner `k` of the base icosahedron.
pub open spec fn spec_corner_coords(k: int) -> (GoldenCoord, GoldenCoord, GoldenCoord) {
    if k == 0 {
        (gc(-1, 0), gc(0, 1), gc(0, 0))
    } else if k == 1 {
        (gc(1, 0), gc(0, 1), gc(0, 0))
    } else if k == 2 {
        (gc(-1, 0), gc(0, -1), gc(0, 0))
    } else if k == 3 {
        (gc(1, 0), gc(0, -1), gc(0, 0))
    } else if k == 4 {
        (gc(0, 0), gc(-1, 0), gc(0, 1))
    } else if k == 5 {
        (gc(0, 0), gc(1, 0), gc(0, 1))
    } else if k == 6 {
        (gc(0, 0), gc(-1, 0), gc(0, -1))
    } else if k == 7 {
        (gc(0, 0), gc(1, 0), gc(0, -1))
    } else if k == 8 {
        (gc(0, 1), gc(0, 0), gc(-1, 0))
    } else if k == 9 {
        (gc(0, 1), gc(0, 0), gc(1, 0))
    } else if k == 10 {
        (gc(0, -1), gc(0, 0), gc(-1, 0))
    } else {
        (gc(0, -1), gc(0, 0), gc(1, 0))
    }
}

/// Corner `k` of the base icosahedron.
pub open spec fn icosahedron_corner<V: MeshVector>(k: int) -> V {
    let (x, y, z) = spec_corner_coords(k);
    V::spec_from_golden(x, y, z)
}

fn corner_coords(k: usize) -> (r: (GoldenCoord, GoldenCoord, GoldenCoord))
    requires
        k < 12,
    ensures
        r == spec_corner_coords(k as int),
{
    match k {
        0 => (golden(-1, 0), golden(0, 1), golden(0, 0)),
        1 => (golden(1, 0), golden(0, 1), golden(0, 0)),
        2 => (golden(-1, 0), golden(0, -1), golden(0, 0)),
        3 => (golden(1, 0), golden(0, -1), golden(0, 0)),
        4 => (golden(0, 0), golden(-1, 0), golden(0, 1)),
        5 => (golden(0, 0), golden(1, 0), golden(0, 1)),
        6 => (golden(0, 0), golden(-1, 0), golden(0, -1)),
        7 => (golden(0, 0), golden(1, 0), golden(0, -1)),
        8 => (golden(0, 1), golden(0, 0), golden(-1, 0)),
        9 => (golden(0, 1), golden(0, 0), golden(1, 0)),
        10 => (golden(0, -1), golden(0, 0), golden(-1, 0)),
        _ => (golden(0, -1), golden(0, 0), golden(1, 0)),
    }
}

fn golden(units: i8, phis: i8) -> (r: GoldenCoord)
    ensures
        r == (GoldenCoord { units, phis }),
{
    GoldenCoord { units, phis }
}

impl<V: MeshVector> Polyhedron<V> {
    /// Adds the point with the given golden-ratio coordinates, welded.
    fn add_golden_position(&mut self, x: GoldenCoord, y: GoldenCoord, z: GoldenCoord) -> (r: usize)
        requires
            old(self).wf(),
        ensures
            final(self).wf(),
            final(self).grows_from(old(self)),
            final(self).spec_cells() == old(self).spec_cells(),
            final(self).spec_faces() == old(self).spec_faces(),
            r < final(self).spec_positions().len(),
            final(self).weld_keys()[r as int] == V::spec_from_golden(x, y, z).spec_weld_key(
                WELD_PRECISION,
            ),
    {
        let p = V::from_golden(x, y, z);
        self.add_position(p)
    }

    /// The regular icosahedron with corners `(0, ±1, ±φ)`, `(±1, ±φ, 0)` and
    /// `(±φ, 0, ±1)`: twelve corners and twenty faces.
    pub fn base_icosahedron() -> (r: Polyhedron<V>)
        ensures
            r.wf(),
            r.spec_cells().len() == 20,
            r.spec_faces().len() == 0,
            exists|corners: Seq<usize>|
                {
                    &&& corners.len() == 12
                    &&& forall|m: int|
                        0 <= m < 12 ==> r.weld_keys()[#[trigger] corners[m] as int]
                            == icosahedron_corner::<V>(m).spec_weld_key(WELD_PRECISION)
                    &&& forall|t: int|
                        0 <= t < 20 ==> #[trigger] r.spec_cells()[t] == relabel(
                            icosahedron_faces()[t],
                            corners,
                        )
                },
    {
        let mut base = Polyhedron::new();
        let mut corners: Vec<usize> = Vec::new();
        let mut k: usize = 0;
        while k < 12
            invariant
                k <= 12,
                base.wf(),
                base.spec_cells().len() == 0,
                base.spec_faces().len() == 0,
                corners@.len() == k,
                forall|m: int| 0 <= m < k ==> #[trigger] corners@[m] < base.spec_positions().len(),
                forall|m: int|
                    0 <= m < k ==> base.weld_keys()[#[trigger] corners@[m] as int]
                        == icosahedron_corner::<V>(m).spec_weld_key(WELD_PRECISION),
            decreases 12 - k,
        {
            let (x, y, z) = corner_coords(k);
            let ghost before = base;
            let r = base.add_golden_position(x, y, z);
            corners.push(r);
            assert forall|m: int| 0 <= m < k + 1 implies base.weld_keys()[#[trigger] corners@[m] as int]
                == icosahedron_corner::<V>(m).spec_weld_key(WELD_PRECISION) by {
                if m < k {
                    assert(before.weld_keys()[corners@[m] as int] == icosahedron_corner::<V>(m).spec_weld_key(WELD_PRECISION));
                }
            }
            k = k + 1;
        }
        let faces = base_icosahedron_faces();
        let ghost corner_keys = base.weld_keys();
        let mut t: usize = 0;
        while t < faces.len()
            invariant
                faces@ == icosahedron_faces(),
                corners@.len() == 12,
                forall|k: int| 0 <= k < 12 ==> #[trigger] corners@[k] < base.spec_positions().len(),
                t <= faces@.len(),
                base.wf(),
                base.spec_cells().len() == t,
                base.spec_faces().len() == 0,
                base.weld_keys() == corner_keys,
                forall|m: int|
                    0 <= m < 12 ==> corner_keys[#[trigger] corners@[m] as int]
                        == icosahedron_corner::<V>(m).spec_weld_key(WELD_PRECISION),
                forall|u: int|
                    0 <= u < t ==> #[trigger] base.spec_cells()[u] == relabel(
                        icosahedron_faces()[u],
                        corners@,
                    ),
            decreases faces@.len() - t,
        {
            let f = faces[t];
            assert(f.in_range(12));
            base.push_cell(Triangle::new(corners[f.a], corners[f.b], corners[f.c]));
            t = t + 1;
        }
        assert(forall|u: int|
            0 <= u < 20 ==> #[trigger] base.spec_cells()[u] == relabel(
                icosahedron_faces()[u],
                corners@,
            ));
        base
    }

    /// A geodesic sphere of the given radius: the base icosahedron with each
    /// face subdivided into `4^detail` triangles whose corners lie on the
    /// sphere, `20 * 4^detail` triangles in all.
    pub fn new_isocahedron(radius: V::Scalar, detail: usize) -> (r: Polyhedron<V>)
        requires
            20 * pow(4, detail as nat) <= usize::MAX,
        ensures
            r.wf(),
            r.spec_cells().len() == 20 * pow(4, detail as nat),
            r.spec_faces().len() == 0,
            is_geodesic_sphere(r, radius, detail as nat),
    {
        proof {
            lemma_pow2_squared(detail as nat);
        }
        let base = Self::base_icosahedron();
        let mut subdivided = Polyhedron::new();
        subdivided.subdivide(&base, radius, detail);
        assert(base_shaped(base));
        assert(forall|t: int| 0 <= t < 20 ==> #[trigger] subdivision_block(subdivided, 0, t, detail as nat, base, radius));
        subdivided
    }
}

/// Whether a geodesic sphere at this detail level has a triangle count
/// (`20 * 4^detail`) that fits in `usize`.
pub fn detail_supported(detail: usize) -> (r: bool)
    ensures
        r == (20 * pow(4, detail as nat) <= usize::MAX),
{
    let mut count: usize = 20;
    let mut e: usize = 0;
    proof {
        reveal(pow);
    }
    while e < detail
        invariant
            e <= detail,
            count == 20 * pow(4, e as nat),
        decreases detail - e,
    {
        proof {
            reveal(pow);
            vstd::arithmetic::power::lemma_pow_increases(4, (e + 1) as nat, detail as nat);
        }
        match count.checked_mul(4) {
            Some(c) => {
                count = c;
            },
            None => {
                return false;
            },
        }
        e = e + 1;
    }
    true
}

/// The detail levels `0 ..= max_detail`, in increasing order.
pub fn detail_levels(max_detail: usize) -> (r: Vec<usize>)
    requires
        max_detail < usize::MAX,
    ensures
        r@ == Seq::new((max_detail + 1) as nat, |i: int| i as usize),
{
    let mut levels: Vec<usize> = Vec::new();
    let mut d: usize = 0;
    while d <= max_detail
        invariant
            d <= max_detail + 1,
            max_detail < usize::MAX,
            levels@ == Seq::new(d as nat, |i: int| i as usize),
        decreases max_detail + 1 - d,
    {
        levels.push(d);
        assert(levels@ =~= Seq::new((d + 1) as nat, |i: int| i as usize));
        d = d + 1;
    }
    levels
}

} // verus!
