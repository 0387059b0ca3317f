use vstd::prelude::*;

use crate::mesh::{Polyhedron, Triangle};
use crate::vector::MeshVector;

verus! {

/// The file formats a finished mesh can be written in.
#[derive(Clone, Copy, Debug, PartialEq, Eq, Structural)]
pub enum Format {
    Json,
    Bin,
}

impl Format {
    /// The file name extension of the format.
    pub fn extension(&self) -> (r: String)
        ensures
            r@ == match self {
                Format::Bin => "bin"@,
                Format::Json => "json"@,
            },
    {
        match self {
            Format::Bin => "bin".to_string(),
            Format::Json => "json".to_string(),
        }
    }
}

/// The name of the mesh kind in file names: `hexsphere` for the dual mesh,
/// `icosahedron` for the geodesic sphere.
pub fn mesh_kind(truncated: bool) -> (r: String)
    ensures
        r@ == if truncated {
            "hexsphere"@
        } else {
            "icosahedron"@
        },
{
    if truncated {
        "hexsphere".to_string()
    } else {
        "icosahedron".to_string()
    }
}

/// The four little-endian bytes of `x`.
pub open spec fn le_u32(x: u32) -> Seq<u8> {
    seq![
        (x % 0x100) as u8,
        ((x / 0x100) % 0x100) as u8,
        ((x / 0x1_0000) % 0x100) as u8,
        ((x / 0x100_0000) % 0x100) as u8,
    ]
}

/// The twelve bytes of a triangle record: its three indices as
/// little-endian 32-bit integers.
pub open spec fn cell_record(t: Triangle) -> Seq<u8> {
    le_u32(t.a as u32) + le_u32(t.b as u32) + le_u32(t.c as u32)
}

fn push_u32(out: &mut Vec<u8>, x: u32)
    ensures
        final(out)@ == old(out)@ + le_u32(x),
{
    out.push((x % 0x100) as u8);
    out.push(((x / 0x100) % 0x100) as u8);
    out.push(((x / 0x1_0000) % 0x100) as u8);
    out.push(((x / 0x100_0000) % 0x100) as u8);
    assert(final(out)@ =~= old(out)@ + le_u32(x));
}

fn push_record(out: &mut Vec<u8>, rec: &[u8; 12])
    ensures
        final(out)@ == old(out)@ + rec@,
{
    let ghost start = out@;
    let mut i: usize = 0;
    while i < 12
        invariant
            i <= 12,
            out@ == start + rec@.subrange(0, i as int),
        decreases 12 - i,
    {
        out.push(rec[i]);
        assert(out@ =~= start + rec@.subrange(0, i + 1));
        i = i + 1;
    }
    assert(rec@.subrange(0, 12) =~= rec@);
}

/// The twelve-byte record of each point: its coordinates as three
/// little-endian single-precision numbers.
pub fn point_records<V: MeshVector>(points: &Vec<V>) -> (r: Vec<[u8; 12]>)
    ensures
        r@.len() == points@.len(),
        forall|i: int| 0 <= i < r@.len() ==> #[trigger] r@[i] == points@[i].spec_le_bytes(),
{
    let mut records: Vec<[u8; 12]> = Vec::new();
    let mut i: usize = 0;
    while i < points.len()
        invariant
            i <= points@.len(),
            records@.len() == i,
            forall|k: int| 0 <= k < i ==> #[trigger] records@[k] == points@[k].spec_le_bytes(),
        decreases points@.len() - i,
    {
        records.push(points[i].le_bytes());
        i = i + 1;
    }
    records
}

/// The bytes `records` laid end to end put at `start` in `bytes`.
pub open spec fn holds_records(bytes: Seq<u8>, start: int, records: Seq<[u8; 12]>) -> bool {
    forall|i: int|
        0 <= i < records.len() ==> bytes.subrange(start + 12 * i, start + 12 * i + 12) == (
        #[trigger] records[i])@
}

fn push_records(out: &mut Vec<u8>, records: &Vec<[u8; 12]>)
    ensures
        final(out)@.len() == old(out)@.len() + 12 * records@.len(),
        final(out)@.subrange(0, old(out)@.len() as int) == old(out)@,
        holds_records(final(out)@, old(out)@.len() as int, records@),
{
    let ghost start = out@;
    let mut i: usize = 0;
    while i < records.len()
        invariant
            i <= records@.len(),
            out@.len() == start.len() + 12 * i,
            out@.subrange(0, start.len() as int) == start,
            holds_records(out@, start.len() as int, records@.subrange(0, i as int)),
        decreases records@.len() - i,
    {
        let ghost before = out@;
        push_record(out, &records[i]);
        proof {
            let base = start.len() as int;
            assert(out@.subrange(0, base) =~= before.subrange(0, base));
            assert forall|u: int| 0 <= u < i + 1 implies out@.subrange(base + 12 * u, base + 12 * u + 12)
                == (#[trigger] records@.subrange(0, i + 1)[u])@ by {
                if u < i {
                    assert(records@.subrange(0, i as int)[u] == records@.subrange(0, i + 1)[u]);
                    assert(out@.subrange(base + 12 * u, base + 12 * u + 12) =~= before.subrange(
                        base + 12 * u,
                        base + 12 * u + 12,
                    ));
                } else {
                    assert(out@.subrange(base + 12 * u, base + 12 * u + 12) =~= records@[u]@);
                }
            }
        }
        i = i + 1;
    }
    assert(records@.subrange(0, records@.len() as int) =~= records@);
}

/// The mesh in the binary file format: the vertex count and the triangle
/// count as little-endian 32-bit integers, then the record of each
/// position, then that of each normal (see `point_records`), then a record
/// of three little-endian 32-bit indices for each triangle. `None` where a
/// count does not fit in 32 bits.
pub fn encode_binary<V: MeshVector>(
    mesh: &Polyhedron<V>,
    position_records: &Vec<[u8; 12]>,
    normal_records: &Vec<[u8; 12]>,
) -> (r: Option<Vec<u8>>)
    requires
        mesh.wf(),
        position_records@.len() == mesh.spec_positions().len(),
        normal_records@.len() == mesh.spec_normals().len(),
    ensures
        r is Some <==> mesh.spec_positions().len() <= u32::MAX && mesh.spec_cells().len() <= u32::MAX,
        r matches Some(bytes) ==> {
            let np = mesh.spec_positions().len() as int;
            let nc = mesh.spec_cells().len() as int;
            let body = 8 + 24 * np;
            &&& bytes@.len() == body + 12 * nc
            &&& bytes@.subrange(0, 4) == le_u32(np as u32)
            &&& bytes@.subrange(4, 8) == le_u32(nc as u32)
            &&& holds_records(bytes@, 8, position_records@)
            &&& holds_records(bytes@, 8 + 12 * np, normal_records@)
            &&& forall|t: int|
                0 <= t < nc ==> bytes@.subrange(body + 12 * t, body + 12 * t + 12) == cell_record(
                    #[trigger] mesh.spec_cells()[t],
                )
        },
{
    let positions = mesh.positions();
    let cells = mesh.cells();
    if positions.len() > u32::MAX as usize || cells.len() > u32::MAX as usize {
        return None;
    }
    let mut out: Vec<u8> = Vec::new();
    push_u32(&mut out, positions.len() as u32);
    push_u32(&mut out, cells.len() as u32);
    let ghost header = out@;
    push_records(&mut out, position_records);
    let ghost with_positions = out@;
    push_records(&mut out, normal_records);
    let ghost with_normals = out@;
    proof {
        assert(out@.subrange(0, 8) =~= header.subrange(0, 8));
        assert forall|i: int| 0 <= i < position_records@.len() implies out@.subrange(8 + 12 * i, 8 + 12 * i + 12)
            == (#[trigger] position_records@[i])@ by {
            assert(out@.subrange(8 + 12 * i, 8 + 12 * i + 12) =~= with_positions.subrange(
                8 + 12 * i,
                8 + 12 * i + 12,
            ));
        }
    }
    let ghost body: int = 8 + 24 * positions@.len() as int;
    let ghost prefix = out@;
    let mut t: usize = 0;
    while t < cells.len()
        invariant
            mesh.wf(),
            cells@ == mesh.spec_cells(),
            positions@ == mesh.spec_positions(),
            positions@.len() <= u32::MAX,
            body == 8 + 24 * positions@.len(),
            prefix.len() == body,
            t <= cells@.len(),
            out@.len() == body + 12 * t,
            out@.subrange(0, body) == prefix,
            forall|u: int|
                0 <= u < t ==> out@.subrange(body + 12 * u, body + 12 * u + 12) == cell_record(
                    #[trigger] cells@[u],
                ),
        decreases cells@.len() - t,
    {
        let tri = cells[t];
        assert(mesh.spec_cells()[t as int].in_range(positions@.len() as int));
        let ghost before = out@;
        push_u32(&mut out, tri.a as u32);
        push_u32(&mut out, tri.b as u32);
        push_u32(&mut out, tri.c as u32);
        proof {
            assert(out@ =~= before + cell_record(tri));
            assert(out@.subrange(0, body) =~= before.subrange(0, body));
            assert forall|u: int| 0 <= u < t + 1 implies out@.subrange(body + 12 * u, body + 12 * u + 12)
                == cell_record(#[trigger] cells@[u]) by {
                if u < t {
                    assert(out@.subrange(body + 12 * u, body + 12 * u + 12) =~= before.subrange(
                        body + 12 * u,
                        body + 12 * u + 12,
                    ));
                } else {
                    assert(out@.subrange(body + 12 * u, body + 12 * u + 12) =~= cell_record(tri));
                }
            }
        }
        t = t + 1;
    }
    proof {
        assert(header.subrange(0, 4) =~= le_u32(positions@.len() as u32));
        assert(out@.subrange(0, 4) =~= prefix.subrange(0, 4));
        assert(prefix.subrange(0, 4) =~= header.subrange(0, 4));
        assert(out@.subrange(4, 8) =~= prefix.subrange(4, 8));
        assert(prefix.subrange(4, 8) =~= header.subrange(4, 8));
        assert forall|i: int| 0 <= i < position_records@.len() implies out@.subrange(8 + 12 * i, 8 + 12 * i + 12)
            == (#[trigger] position_records@[i])@ by {
            assert(out@.subrange(8 + 12 * i, 8 + 12 * i + 12) =~= prefix.subrange(8 + 12 * i, 8 + 12 * i + 12));
        }
        let np = positions@.len() as int;
        assert forall|i: int| 0 <= i < normal_records@.len() implies out@.subrange(8 + 12 * np + 12 * i, 8 + 12 * np + 12 * i + 12)
            == (#[trigger] normal_records@[i])@ by {
            assert(out@.subrange(8 + 12 * np + 12 * i, 8 + 12 * np + 12 * i + 12) =~= prefix.subrange(8 + 12 * np + 12 * i, 8 + 12 * np + 12 * i + 12));
            assert(prefix.subrange(8 + 12 * np + 12 * i, 8 + 12 * np + 12 * i + 12) =~= with_normals.subrange(8 + 12 * np + 12 * i, 8 + 12 * np + 12 * i + 12));
        }
    }
    Some(out)
}

} // verus!
