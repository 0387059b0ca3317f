use std::collections::HashMap;
use vstd::prelude::*;

use crate::vector::{MeshVector, WeldKey, WELD_PRECISION};

verus! {

broadcast use vstd::std_specs::hash::group_hash_axioms;

/// A triangle: three indices into a mesh's positions, listed in winding order.
#[derive(Clone, Copy, Debug, PartialEq, Eq, Structural)]
pub struct Triangle {
    pub a: usize,
    pub b: usize,
    pub c: usize,
}

impl Triangle {
    pub fn new(a: usize, b: usize, c: usize) -> (r: Triangle)
        ensures
            r == (Triangle { a, b, c }),
    {
        Triangle { a, b, c }
    }

    /// All three corners index one of `n` positions.
    pub open spec fn in_range(self, n: int) -> bool {
        self.a < n && self.b < n && self.c < n
    }

    /// `v` is one of the corners.
    pub open spec fn has_corner(self, v: int) -> bool {
        self.a == v || self.b == v || self.c == v
    }
}

/// The weld key of point `p` at the weld precision.
pub open spec fn weld_key_of<V: MeshVector>(p: V) -> WeldKey {
    p.spec_weld_key(WELD_PRECISION)
}

/// The integer that stands for a weld key in the weld cache. Each
/// coordinate is shifted into `0 .. 2^32` and the three are laid side by side.
pub open spec fn key_id(k: WeldKey) -> int {
    (k.x + 0x8000_0000) * 0x1_0000_0000_0000_0000 + (k.y + 0x8000_0000) * 0x1_0000_0000 + (k.z
        + 0x8000_0000)
}

/// Different weld keys have different cache identities.
pub proof fn lemma_key_id_injective(k1: WeldKey, k2: WeldKey)
    ensures
        key_id(k1) == key_id(k2) <==> k1 == k2,
{
}

fn weld_key_id(k: WeldKey) -> (r: u128)
    ensures
        r == key_id(k),
{
    let x = (k.x as i64 + 0x8000_0000) as u128;
    let y = (k.y as i64 + 0x8000_0000) as u128;
    let z = (k.z as i64 + 0x8000_0000) as u128;
    x * 0x1_0000_0000_0000_0000 + y * 0x1_0000_0000 + z
}

/// A polyhedral mesh: positions, triangles over them, one normal slot per
/// position and, for a dual mesh, the triangles grouped into polygonal faces.
///
/// Positions are welded: each one is registered under the weld key it was
/// added with, no two positions share a key, and adding a point whose key is
/// already present yields the existing index.
pub struct Polyhedron<V> {
    positions: Vec<V>,
    cells: Vec<Triangle>,
    normals: Vec<V>,
    faces: Vec<Vec<usize>>,
    added_vert_cache: HashMap<u128, usize>,
    keys: Ghost<Seq<WeldKey>>,
    zero: V,
}

impl<V: MeshVector> Polyhedron<V> {
    pub closed spec fn spec_positions(&self) -> Seq<V> {
        self.positions@
    }

    pub closed spec fn spec_normals(&self) -> Seq<V> {
        self.normals@
    }

    /// The zero vector the mesh was made with: every new normal slot starts
    /// as this value.
    pub closed spec fn spec_zero(&self) -> V {
        self.zero
    }

    pub closed spec fn spec_cells(&self) -> Seq<Triangle> {
        self.cells@
    }

    pub closed spec fn spec_faces(&self) -> Seq<Seq<usize>> {
        self.faces@.map_values(|f: Vec<usize>| f@)
    }

    /// The weld key each position was registered under.
    pub closed spec fn weld_keys(&self) -> Seq<WeldKey> {
        self.keys@
    }

    /// Some position was registered under `key`.
    pub open spec fn has_key(&self, key: WeldKey) -> bool {
        exists|i: int| 0 <= i < self.weld_keys().len() && self.weld_keys()[i] == key
    }

    /// Every cell indexes existing positions.
    pub open spec fn cells_in_range(&self) -> bool {
        forall|t: int|
            0 <= t < self.spec_cells().len() ==> (#[trigger] self.spec_cells()[t]).in_range(
                self.spec_positions().len() as int,
            )
    }

    /// Every face lists existing cells.
    pub open spec fn faces_in_range(&self) -> bool {
        forall|f: int, j: int|
            0 <= f < self.spec_faces().len() && 0 <= j < self.spec_faces()[f].len()
                ==> #[trigger] self.spec_faces()[f][j] < self.spec_cells().len()
    }

    /// Weld keys are distinct.
    pub open spec fn keys_distinct(&self) -> bool {
        forall|i: int, j: int|
            0 <= i < self.weld_keys().len() && 0 <= j < self.weld_keys().len() && i != j
                ==> #[trigger] self.weld_keys()[i] != #[trigger] self.weld_keys()[j]
    }

    pub closed spec fn cache_consistent(&self) -> bool {
        &&& forall|i: int|
            0 <= i < self.keys@.len() ==> {
                &&& #[trigger] self.added_vert_cache@.contains_key(key_id(self.keys@[i]) as u128)
                &&& self.added_vert_cache@[key_id(self.keys@[i]) as u128] == i
            }
        &&& forall|k: u128| #[trigger]
            self.added_vert_cache@.contains_key(k) ==> {
                &&& self.added_vert_cache@[k] < self.keys@.len()
                &&& key_id(self.keys@[self.added_vert_cache@[k] as int]) == k
            }
    }

    /// The mesh is well formed.
    pub open spec fn wf(&self) -> bool {
        &&& self.weld_keys().len() == self.spec_positions().len()
        &&& self.spec_normals().len() == self.spec_positions().len()
        &&& self.cells_in_range()
        &&& self.faces_in_range()
        &&& self.keys_distinct()
        &&& self.cache_consistent()
        &&& forall|i: int|
            0 <= i < self.weld_keys().len() ==> #[trigger] self.weld_keys()[i] == weld_key_of(
                self.spec_positions()[i],
            )
    }

    /// The weld keys of the three corners of cell `t`.
    pub open spec fn cell_keys(&self, t: int) -> (WeldKey, WeldKey, WeldKey) {
        let c = self.spec_cells()[t];
        (self.weld_keys()[c.a as int], self.weld_keys()[c.b as int], self.weld_keys()[c.c as int])
    }

    /// `self` came from `before` by appending only: every position, weld
    /// key and cell of `before` is still there under the same index.
    pub open spec fn grows_from(&self, before: &Self) -> bool {
        &&& before.spec_positions().len() <= self.spec_positions().len()
        &&& before.spec_cells().len() <= self.spec_cells().len()
        &&& before.weld_keys().len() <= self.weld_keys().len()
        &&& forall|i: int|
            0 <= i < before.spec_positions().len() ==> #[trigger] self.spec_positions()[i]
                == before.spec_positions()[i]
        &&& forall|i: int|
            0 <= i < before.weld_keys().len() ==> #[trigger] self.weld_keys()[i]
                == before.weld_keys()[i]
        &&& forall|t: int|
            0 <= t < before.spec_cells().len() ==> #[trigger] self.spec_cells()[t]
                == before.spec_cells()[t]
        &&& before.spec_faces().len() <= self.spec_faces().len()
        &&& forall|f: int|
            0 <= f < before.spec_faces().len() ==> #[trigger] self.spec_faces()[f]
                == before.spec_faces()[f]
    }

    /// Face `face` is the fan of the `count` cells from `start` on: it lists
    /// exactly those cells, all of them share their first corner (the fan's
    /// center), and each even-numbered cell's last corner is the middle
    /// corner of the cell after it.
    pub open spec fn is_fan(&self, face: int, start: int, count: int) -> bool {
        &&& 0 <= face < self.spec_faces().len()
        &&& 0 <= start
        &&& start + count <= self.spec_cells().len()
        &&& self.spec_faces()[face] == Seq::new(count as nat, |k: int| (start + k) as usize)
        &&& forall|t: int|
            start <= t < start + count ==> (#[trigger] self.spec_cells()[t]).a
                == self.spec_cells()[start].a
        &&& forall|t: int|
            start <= t < start + count && (t - start) % 2 == 0 ==> (#[trigger] self.spec_cells()[t]).c
                == self.spec_cells()[t + 1].b
    }

    /// Growing a mesh keeps its fans.
    pub proof fn lemma_grows_keeps_fan(&self, before: &Self, face: int, start: int, count: int)
        requires
            self.grows_from(before),
            before.is_fan(face, start, count),
            count % 2 == 0,
        ensures
            self.is_fan(face, start, count),
    {
        if count > 0 {
            assert(self.spec_cells()[start] == before.spec_cells()[start]);
        }
        assert forall|t: int|
            start <= t < start + count && (t - start) % 2 == 0 implies (#[trigger] self.spec_cells()[t]).c
                == self.spec_cells()[t + 1].b by {
            assert(before.spec_cells()[t].c == before.spec_cells()[t + 1].b);
        }
    }

    /// Growing a mesh keeps the corner keys of the cells it had.
    pub proof fn lemma_grows_keeps_cell_keys(&self, before: &Self)
        requires
            before.wf(),
            self.grows_from(before),
        ensures
            forall|t: int|
                0 <= t < before.spec_cells().len() ==> #[trigger] self.cell_keys(t)
                    == before.cell_keys(t),
    {
        assert forall|t: int| 0 <= t < before.spec_cells().len() implies #[trigger] self.cell_keys(t)
            == before.cell_keys(t) by {
            assert(before.spec_cells()[t].in_range(before.spec_positions().len() as int));
        }
    }

    /// Appending only is transitive.
    pub proof fn lemma_grows_trans(&self, mid: &Self, first: &Self)
        requires
            self.grows_from(mid),
            mid.grows_from(first),
        ensures
            self.grows_from(first),
    {
    }

    /// Welding: in a well-formed mesh, two positions registered under the
    /// same weld key are one and the same position.
    pub proof fn lemma_one_index_per_key(&self, i: int, j: int)
        requires
            self.wf(),
            0 <= i < self.spec_positions().len(),
            0 <= j < self.spec_positions().len(),
            self.weld_keys()[i] == self.weld_keys()[j],
        ensures
            i == j,
    {
    }

    /// An empty mesh.
    pub fn new() -> (r: Polyhedron<V>)
        ensures
            r.wf(),
            r.spec_positions().len() == 0,
            r.spec_cells().len() == 0,
            r.spec_faces().len() == 0,
    {
        Polyhedron {
            positions: Vec::new(),
            cells: Vec::new(),
            normals: Vec::new(),
            faces: Vec::new(),
            added_vert_cache: HashMap::new(),
            keys: Ghost(Seq::empty()),
            zero: V::zero(),
        }
    }

    /// Adds point `p`, welded: where a position is already registered under
    /// `p`'s weld key, its index is returned and nothing changes; otherwise
    /// `p` is appended, with a zero normal slot, and its index returned.
    pub fn add_position(&mut self, p: V) -> (r: usize)
        requires
            old(self).wf(),
        ensures
            final(self).wf(),
            final(self).spec_cells() == old(self).spec_cells(),
            final(self).spec_faces() == old(self).spec_faces(),
            final(self).spec_normals().len() == final(self).spec_positions().len(),
            final(self).grows_from(old(self)),
            r < final(self).spec_positions().len(),
            final(self).weld_keys()[r as int] == weld_key_of(p),
            old(self).has_key(weld_key_of(p)) ==> {
                &&& final(self).spec_positions() == old(self).spec_positions()
                &&& final(self).weld_keys() == old(self).weld_keys()
                &&& final(self).spec_normals() == old(self).spec_normals()
            },
            !old(self).has_key(weld_key_of(p)) ==> {
                &&& r == old(self).spec_positions().len()
                &&& final(self).spec_positions() == old(self).spec_positions().push(p)
                &&& final(self).weld_keys() == old(self).weld_keys().push(weld_key_of(p))
                &&& final(self).spec_normals() == old(self).spec_normals().push(old(self).spec_zero())
            },
            final(self).spec_zero() == old(self).spec_zero(),
    {
        let key = p.weld_key(WELD_PRECISION);
        let id = weld_key_id(key);
        match self.added_vert_cache.get(&id) {
            Some(index) => {
                let index = *index;
                proof {
                    lemma_key_id_injective(self.keys@[index as int], key);
                }
                index
            },
            None => {
                proof {
                    if self.has_key(key) {
                        let i = choose|i: int| 0 <= i < self.keys@.len() && self.keys@[i] == key;
                        assert(self.added_vert_cache@.contains_key(key_id(self.keys@[i]) as u128));
                    }
                }
                let index = self.positions.len();
                self.positions.push(p);
                self.normals.push(self.zero);
                self.added_vert_cache.insert(id, index);
                let ghost old_keys = self.keys@;
                self.keys = Ghost(self.keys@.push(key));
                proof {
                    assert forall|i: int, j: int|
                        0 <= i < self.keys@.len() && 0 <= j < self.keys@.len() && i != j
                            implies #[trigger] self.keys@[i] != #[trigger] self.keys@[j] by {
                        if j == index && i < index {
                            assert(self.added_vert_cache@.contains_key(key_id(old_keys[i]) as u128));
                        }
                        if i == index && j < index {
                            assert(self.added_vert_cache@.contains_key(key_id(old_keys[j]) as u128));
                        }
                    }
                    assert forall|k: u128| #[trigger] self.added_vert_cache@.contains_key(k) implies {
                        &&& self.added_vert_cache@[k] < self.keys@.len()
                        &&& key_id(self.keys@[self.added_vert_cache@[k] as int]) == k
                    } by {
                    }
                    assert forall|i: int| 0 <= i < self.keys@.len() implies {
                        &&& #[trigger] self.added_vert_cache@.contains_key(key_id(self.keys@[i]) as u128)
                        &&& self.added_vert_cache@[key_id(self.keys@[i]) as u128] == i
                    } by {
                        if i < index {
                            lemma_key_id_injective(self.keys@[i], key);
                        }
                    }
                    assert(self.cache_consistent());
                    assert(self.cells@ == old(self).cells@);
                    assert(self.faces@ == old(self).faces@);
                    assert(self.spec_faces() == old(self).spec_faces());
                    assert(self.faces_in_range());
                    assert(self.cells_in_range()) by {
                        assert forall|t: int| 0 <= t < self.cells@.len() implies (#[trigger] self.cells@[t]).in_range(self.positions@.len() as int) by {
                            assert(old(self).spec_cells()[t].in_range(old(self).spec_positions().len() as int));
                        }
                    }
                }
                index
            },
        }
    }

    /// The positions, in the order they were added.
    pub fn positions(&self) -> (r: &Vec<V>)
        ensures
            r@ == self.spec_positions(),
    {
        &self.positions
    }

    /// One normal per position.
    pub fn normals(&self) -> (r: &Vec<V>)
        ensures
            r@ == self.spec_normals(),
    {
        &self.normals
    }

    /// The triangles.
    pub fn cells(&self) -> (r: &Vec<Triangle>)
        ensures
            r@ == self.spec_cells(),
    {
        &self.cells
    }

    /// The polygonal faces, each a list of cell indices.
    pub fn faces(&self) -> (r: &Vec<Vec<usize>>)
        ensures
            r@.map_values(|f: Vec<usize>| f@) == self.spec_faces(),
    {
        &self.faces
    }

    /// Replaces the normal of position `i`.
    pub fn set_normal(&mut self, i: usize, n: V)
        requires
            old(self).wf(),
            i < old(self).spec_normals().len(),
        ensures
            final(self).wf(),
            final(self).spec_normals() == old(self).spec_normals().update(i as int, n),
            final(self).spec_positions() == old(self).spec_positions(),
            final(self).weld_keys() == old(self).weld_keys(),
            final(self).spec_cells() == old(self).spec_cells(),
            final(self).spec_faces() == old(self).spec_faces(),
    {
        self.normals.set(i, n);
        proof {
            assert(self.spec_faces() == old(self).spec_faces());
            assert(self.cells_in_range()) by {
                assert forall|u: int| 0 <= u < self.cells@.len() implies (#[trigger] self.cells@[u]).in_range(
                    self.positions@.len() as int) by {
                    assert(old(self).spec_cells()[u].in_range(old(self).spec_positions().len() as int));
                }
            }
        }
    }

    /// Appends a triangle over existing positions.
    pub fn push_cell(&mut self, t: Triangle)
        requires
            old(self).wf(),
            t.in_range(old(self).spec_positions().len() as int),
        ensures
            final(self).wf(),
            final(self).grows_from(old(self)),
            final(self).spec_cells() == old(self).spec_cells().push(t),
            final(self).spec_positions() == old(self).spec_positions(),
            final(self).weld_keys() == old(self).weld_keys(),
            final(self).spec_normals() == old(self).spec_normals(),
            final(self).spec_faces() == old(self).spec_faces(),
    {
        self.cells.push(t);
        proof {
            assert(self.spec_faces() == old(self).spec_faces());
            assert(self.cells_in_range()) by {
                assert forall|u: int| 0 <= u < self.cells@.len() implies (#[trigger] self.cells@[u]).in_range(
                    self.positions@.len() as int) by {
                    if u < old(self).cells@.len() {
                        assert(old(self).spec_cells()[u].in_range(old(self).spec_positions().len() as int));
                    }
                }
            }
        }
    }

    /// Appends a face made of existing cells.
    pub fn push_face(&mut self, face: Vec<usize>)
        requires
            old(self).wf(),
            forall|j: int| 0 <= j < face@.len() ==> #[trigger] face@[j] < old(self).spec_cells().len(),
        ensures
            final(self).wf(),
            final(self).grows_from(old(self)),
            final(self).spec_faces() == old(self).spec_faces().push(face@),
            final(self).spec_cells() == old(self).spec_cells(),
            final(self).spec_positions() == old(self).spec_positions(),
            final(self).weld_keys() == old(self).weld_keys(),
            final(self).spec_normals() == old(self).spec_normals(),
    {
        let ghost fv = face@;
        self.faces.push(face);
        proof {
            assert(self.spec_faces() =~= old(self).spec_faces().push(fv));
            assert forall|f: int, j: int|
                0 <= f < self.spec_faces().len() && 0 <= j < self.spec_faces()[f].len()
                    implies #[trigger] self.spec_faces()[f][j] < self.spec_cells().len() by {
                if f < old(self).spec_faces().len() {
                    assert(old(self).spec_faces()[f][j] < old(self).spec_cells().len());
                }
            }
        }
    }
}

} // verus!
