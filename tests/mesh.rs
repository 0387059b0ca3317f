use std::collections::HashMap;

use byteorder::{ByteOrder, LittleEndian};
use cgmath::{InnerSpace, Vector3, VectorSpace};

use icosahedron::dual::{MeshError, PolygonCounts};
use icosahedron::mesh::{Polyhedron, Triangle};
use icosahedron::output::{encode_binary, mesh_kind, point_records, Format};
use icosahedron::subdivide::{base_icosahedron_faces, detail_levels, detail_supported, lattice_keys};
use icosahedron::vector::{GoldenCoord, MeshVector, WeldKey, WELD_PRECISION};

#[derive(Clone, Copy, Debug, PartialEq)]
struct P(Vector3<f32>);

fn golden_ratio() -> f32 {
    (1.0 + (5.0 as f32).sqrt()) / 2.0
}

impl MeshVector for P {
    type Scalar = f32;

    fn spec_from_golden(x: GoldenCoord, y: GoldenCoord, z: GoldenCoord) -> P {
        Self::from_golden(x, y, z)
    }

    fn spec_zero() -> P {
        Self::zero()
    }

    fn spec_plus(self, other: P) -> P {
        self.plus(&other)
    }

    fn spec_minus(self, other: P) -> P {
        self.minus(&other)
    }

    fn spec_negated(self) -> P {
        self.negated()
    }

    fn spec_divided_by(self, count: usize) -> P {
        self.divided_by(count)
    }

    fn spec_lerp(self, other: P, num: usize, den: usize) -> P {
        self.lerp(&other, num, den)
    }

    fn spec_on_sphere(self, radius: f32) -> P {
        self.on_sphere(radius)
    }

    fn spec_normalized(self) -> P {
        self.normalized()
    }

    fn spec_cross(self, other: P) -> P {
        self.cross(&other)
    }

    fn spec_dot_is_negative(self, other: P) -> bool {
        self.dot_is_negative(&other)
    }

    fn spec_le_bytes(self) -> [u8; 12] {
        self.le_bytes()
    }

    fn spec_weld_key(self, precision: u32) -> WeldKey {
        self.weld_key(precision)
    }

    fn from_golden(x: GoldenCoord, y: GoldenCoord, z: GoldenCoord) -> P {
        let t = golden_ratio();
        let c = |g: GoldenCoord| g.units as f32 + g.phis as f32 * t;
        P(Vector3::new(c(x), c(y), c(z)))
    }

    fn zero() -> P {
        P(Vector3::new(0.0, 0.0, 0.0))
    }

    fn plus(&self, other: &P) -> P {
        P(self.0 + other.0)
    }

    fn minus(&self, other: &P) -> P {
        P(self.0 - other.0)
    }

    fn negated(&self) -> P {
        P(self.0 * -1.0)
    }

    fn divided_by(&self, count: usize) -> P {
        P(self.0 / count as f32)
    }

    fn lerp(&self, other: &P, num: usize, den: usize) -> P {
        P(self.0.lerp(other.0, num as f32 / den as f32))
    }

    fn on_sphere(&self, radius: f32) -> P {
        P(self.0.normalize() * radius)
    }

    fn normalized(&self) -> P {
        P(self.0.normalize())
    }

    fn cross(&self, other: &P) -> P {
        P(self.0.cross(other.0))
    }

    fn dot_is_negative(&self, other: &P) -> bool {
        self.0.dot(other.0) < 0.0
    }

    fn le_bytes(&self) -> [u8; 12] {
        let mut out = [0u8; 12];
        LittleEndian::write_f32_into(&[self.0.x, self.0.y, self.0.z], &mut out);
        out
    }

    fn weld_key(&self, precision: u32) -> WeldKey {
        let p = precision as f32;
        WeldKey {
            x: (self.0.x * p).round() as i32,
            y: (self.0.y * p).round() as i32,
            z: (self.0.z * p).round() as i32,
        }
    }
}

fn p(x: f32, y: f32, z: f32) -> P {
    P(Vector3::new(x, y, z))
}

fn key(x: i32, y: i32, z: i32) -> WeldKey {
    WeldKey { x, y, z }
}

fn icosahedron(radius: f32, detail: usize) -> Polyhedron<P> {
    Polyhedron::new_isocahedron(radius, detail)
}

fn hexsphere(radius: f32, detail: usize) -> Polyhedron<P> {
    Polyhedron::new_truncated_isocahedron(radius, detail).expect("a geodesic sphere has a dual")
}

#[test]
fn base_icosahedron_has_twelve_corners_at_equal_distance() {
    let base: Polyhedron<P> = Polyhedron::base_icosahedron();
    assert_eq!(base.positions().len(), 12);
    assert_eq!(base.cells().len(), 20);
    let t = golden_ratio();
    let expected = (1.0 + t * t).sqrt();
    for q in base.positions() {
        assert!((q.0.magnitude() - expected).abs() < 1e-6);
    }
}

#[test]
fn detail_zero_keeps_base_connectivity() {
    let mesh = icosahedron(1.0, 0);
    assert_eq!(mesh.positions().len(), 12);
    assert_eq!(mesh.cells().len(), 20);
    let base: Polyhedron<P> = Polyhedron::base_icosahedron();
    let corners: Vec<Vector3<f32>> = base.positions().iter().map(|q| q.0.normalize()).collect();
    let base_index = |i: usize| -> usize {
        let q = mesh.positions()[i].0;
        let found: Vec<usize> =
            (0..12).filter(|k| (corners[*k] - q).magnitude() < 1e-5).collect();
        assert_eq!(found.len(), 1);
        found[0]
    };
    let faces = base_icosahedron_faces();
    for (t, cell) in mesh.cells().iter().enumerate() {
        let f = faces[t];
        assert_eq!(base_index(cell.c), f.a);
        assert_eq!(base_index(cell.a), f.b);
        assert_eq!(base_index(cell.b), f.c);
    }
}

#[test]
fn subdivision_multiplies_triangles_by_four() {
    for detail in 0..5 {
        let radius = 2.5;
        let mesh = icosahedron(radius, detail);
        assert_eq!(mesh.cells().len(), 20 * 4usize.pow(detail as u32));
        assert_eq!(mesh.normals().len(), mesh.positions().len());
        for q in mesh.positions() {
            assert!((q.0.magnitude() - radius).abs() < 1e-4);
        }
    }
}

#[test]
fn welding_leaves_no_duplicate_vertices() {
    for detail in 0..5 {
        let mesh = icosahedron(1.0, detail);
        assert_eq!(mesh.positions().len(), 10 * 4usize.pow(detail as u32) + 2);
    }
}

#[test]
fn dual_has_twelve_pentagons_at_every_detail() {
    for detail in 0..4 {
        let sphere = icosahedron(1.0, detail);
        let dual = hexsphere(1.0, detail);
        let n = sphere.positions().len();
        assert_eq!(dual.faces().len(), n);
        let counts = dual.polygon_counts();
        assert_eq!(counts, PolygonCounts { hexagons: n - 12, pentagons: 12, others: 0 });
        assert_eq!(dual.cells().len(), 6 * sphere.cells().len());
    }
}

#[test]
fn truncated_detail_one_reports_counts() {
    let dual = hexsphere(2.0, 1);
    let counts = dual.polygon_counts();
    assert_eq!(counts.pentagons, 12);
    assert_eq!(counts.hexagons, icosahedron(2.0, 1).positions().len() - 12);
    assert_eq!(counts.hexagons, 30);
}

fn assert_unit_outward_normals(mesh: &Polyhedron<P>) {
    assert_eq!(mesh.normals().len(), mesh.positions().len());
    for (n, q) in mesh.normals().iter().zip(mesh.positions().iter()) {
        assert!((n.0.magnitude() - 1.0).abs() < 1e-4);
        assert!(n.0.dot(q.0) > 0.0);
    }
}

#[test]
fn triangle_normals_are_unit_and_outward() {
    let mut sphere = icosahedron(1.5, 2);
    sphere.compute_triangle_normals();
    assert_unit_outward_normals(&sphere);
    let mut dual = hexsphere(1.5, 2);
    dual.compute_triangle_normals();
    assert_unit_outward_normals(&dual);
}

#[test]
fn face_normals_are_unit_and_outward() {
    let mut dual = hexsphere(1.0, 1);
    dual.compute_face_normals();
    assert_unit_outward_normals(&dual);
}

#[test]
fn json_round_trip_keeps_arrays() {
    let mut mesh = hexsphere(1.0, 1);
    mesh.compute_triangle_normals();
    let positions: Vec<[f32; 3]> = mesh.positions().iter().map(|q| [q.0.x, q.0.y, q.0.z]).collect();
    let normals: Vec<[f32; 3]> = mesh.normals().iter().map(|q| [q.0.x, q.0.y, q.0.z]).collect();
    let cells: Vec<[usize; 3]> = mesh.cells().iter().map(|c| [c.a, c.b, c.c]).collect();
    let text = serde_json::to_string(&(positions.clone(), cells.clone(), normals.clone())).unwrap();
    let back: (Vec<[f32; 3]>, Vec<[usize; 3]>, Vec<[f32; 3]>) = serde_json::from_str(&text).unwrap();
    assert_eq!(back.0, positions);
    assert_eq!(back.1, cells);
    assert_eq!(back.2, normals);
}

#[test]
fn add_position_welds_equal_keys() {
    let mut mesh: Polyhedron<P> = Polyhedron::new();
    assert_eq!(mesh.add_position(p(1.0, 2.0, 3.0)), 0);
    assert_eq!(mesh.add_position(p(4.0, 5.0, 6.0)), 1);
    assert_eq!(mesh.add_position(p(1.00001, 2.0, 3.0)), 0);
    assert_eq!(mesh.positions().len(), 2);
    assert_eq!(mesh.positions()[0], p(1.0, 2.0, 3.0));
    assert_eq!(mesh.normals().len(), 2);
    assert_eq!(mesh.normals()[1], p(0.0, 0.0, 0.0));
    assert_eq!(mesh.add_position(p(-1.0, 2.0, 3.0)), 2);
}

#[test]
fn nearby_points_share_a_weld_key() {
    let a = p(0.12341, 0.5, -0.25);
    let b = p(0.123412, 0.5, -0.25);
    assert_eq!(a.weld_key(WELD_PRECISION), b.weld_key(WELD_PRECISION));
    assert_eq!(a.weld_key(WELD_PRECISION), key(1234, 5000, -2500));
}

#[test]
fn lattice_emits_rows_of_triangles() {
    let mut mesh: Polyhedron<P> = Polyhedron::new();
    let points = vec![
        vec![p(0.0, 0.0, 0.0), p(1.0, 0.0, 0.0), p(2.0, 0.0, 0.0)],
        vec![p(0.0, 1.0, 0.0), p(1.0, 1.0, 0.0)],
        vec![p(0.0, 2.0, 0.0)],
    ];
    let keys = lattice_keys(&points, 2);
    assert_eq!(keys[1][1], key(10000, 10000, 0));
    mesh.add_lattice(&points, &keys, 2);
    assert_eq!(mesh.cells().len(), 4);
    let corner = |i: usize| mesh.positions()[i];
    let first = mesh.cells()[0];
    assert_eq!((corner(first.a), corner(first.b), corner(first.c)), (points[0][1], points[1][0], points[0][0]));
    let second = mesh.cells()[1];
    assert_eq!((corner(second.a), corner(second.b), corner(second.c)), (points[0][1], points[1][1], points[1][0]));
    let last = mesh.cells()[3];
    assert_eq!((corner(last.a), corner(last.b), corner(last.c)), (points[1][1], points[2][0], points[1][0]));
    assert_eq!(mesh.positions().len(), 6);
}

#[test]
fn subdivide_triangle_projects_onto_sphere() {
    let mut mesh: Polyhedron<P> = Polyhedron::new();
    mesh.subdivide_triangle(&p(1.0, 0.0, 0.0), &p(0.0, 1.0, 0.0), &p(0.0, 0.0, 1.0), 3.0, 2);
    assert_eq!(mesh.cells().len(), 16);
    assert_eq!(mesh.positions().len(), 15);
    for q in mesh.positions() {
        assert!((q.0.magnitude() - 3.0).abs() < 1e-4);
    }
}

#[test]
fn vertices_of_base_touch_five_faces() {
    let base: Polyhedron<P> = Polyhedron::base_icosahedron();
    let around = base.vert_to_faces();
    assert_eq!(around.len(), 12);
    for list in &around {
        assert_eq!(list.len(), 5);
    }
    assert_eq!(around[0], vec![0, 1, 2, 3, 4]);
}

#[test]
fn adjacent_face_is_found_across_an_edge() {
    let base: Polyhedron<P> = Polyhedron::base_icosahedron();
    let around = base.vert_to_faces();
    let faces = &around[0];
    let cell = base.cells()[0];
    assert_eq!(base.find_adjacent_face(cell.a, cell.b, faces, 0), Some(4));
    assert_eq!(base.find_adjacent_face(cell.a, cell.c, faces, 0), Some(1));
    assert_eq!(base.find_adjacent_face(cell.a, cell.c, &vec![0], 0), None);
}

#[test]
fn centroids_average_the_corners() {
    let mut mesh: Polyhedron<P> = Polyhedron::new();
    let a = mesh.add_position(p(0.0, 0.0, 0.0));
    let b = mesh.add_position(p(3.0, 0.0, 0.0));
    let c = mesh.add_position(p(0.0, 3.0, 0.0));
    mesh.push_cell(Triangle::new(a, b, c));
    let centroids = mesh.triangle_centroids();
    assert_eq!(centroids.len(), 1);
    assert!((centroids[0].0 - Vector3::new(1.0, 1.0, 0.0)).magnitude() < 1e-6);
}

#[test]
fn open_mesh_has_no_dual() {
    let mut mesh: Polyhedron<P> = Polyhedron::new();
    let a = mesh.add_position(p(0.0, 0.0, 1.0));
    let b = mesh.add_position(p(1.0, 0.0, 0.0));
    let c = mesh.add_position(p(0.0, 1.0, 0.0));
    mesh.push_cell(Triangle::new(a, b, c));
    let mut dual: Polyhedron<P> = Polyhedron::new();
    assert_eq!(
        dual.truncated(&mesh),
        Err(MeshError::MissingAdjacentFace { spoke: 0, vertex: 1, cell: 0 })
    );
}

#[test]
fn degenerate_cell_has_no_dual() {
    let mut mesh: Polyhedron<P> = Polyhedron::new();
    let a = mesh.add_position(p(0.0, 0.0, 1.0));
    let b = mesh.add_position(p(1.0, 0.0, 0.0));
    mesh.push_cell(Triangle::new(a, a, b));
    let mut dual: Polyhedron<P> = Polyhedron::new();
    assert_eq!(dual.truncated(&mesh), Err(MeshError::DegenerateCell { vertex: 0, cell: 0 }));
}

#[test]
fn dual_faces_are_fans_around_a_center() {
    let dual = hexsphere(1.0, 0);
    assert_eq!(dual.faces().len(), 12);
    let mut next = 0;
    for face in dual.faces() {
        assert_eq!(face.len(), 10);
        let center = dual.cells()[face[0]].a;
        for (k, t) in face.iter().enumerate() {
            assert_eq!(*t, next);
            next += 1;
            assert_eq!(dual.cells()[*t].a, center);
            if k % 2 == 0 {
                assert_eq!(dual.cells()[*t].c, dual.cells()[*t + 1].b);
            }
        }
    }
    assert_eq!(dual.polygon_counts(), PolygonCounts { hexagons: 0, pentagons: 12, others: 0 });
}

#[test]
fn binary_encoding_lays_out_counts_and_records() {
    let mut mesh = icosahedron(2.0, 0);
    mesh.compute_triangle_normals();
    let bytes = encode_binary(&mesh, &point_records(mesh.positions()), &point_records(mesh.normals()))
        .expect("small counts fit");
    assert_eq!(bytes.len(), 8 + 24 * 12 + 12 * 20);
    assert_eq!(&bytes[0..4], &[12, 0, 0, 0]);
    assert_eq!(&bytes[4..8], &[20, 0, 0, 0]);
    let first = mesh.positions()[0].0;
    assert_eq!(LittleEndian::read_f32(&bytes[8..12]), first.x);
    assert_eq!(LittleEndian::read_f32(&bytes[16..20]), first.z);
    let normal = mesh.normals()[2].0;
    let at = 8 + 12 * 12 + 12 * 2;
    assert_eq!(LittleEndian::read_f32(&bytes[at..at + 4]), normal.x);
    assert_eq!(LittleEndian::read_f32(&bytes[at + 8..at + 12]), normal.z);
    assert_ne!(&bytes[at..at + 12], &bytes[8 + 24..8 + 36]);
    let body = 8 + 24 * 12;
    let cell = mesh.cells()[1];
    assert_eq!(LittleEndian::read_u32(&bytes[body + 12..body + 16]) as usize, cell.a);
    assert_eq!(LittleEndian::read_u32(&bytes[body + 20..body + 24]) as usize, cell.c);
}

#[test]
fn format_extensions() {
    assert_eq!(Format::Bin.extension(), "bin");
    assert_eq!(Format::Json.extension(), "json");
}

#[test]
fn mesh_kind_names() {
    assert_eq!(mesh_kind(true), "hexsphere");
    assert_eq!(mesh_kind(false), "icosahedron");
}

#[test]
fn detail_limits_and_levels() {
    assert!(detail_supported(0));
    assert!(detail_supported(7));
    assert!(!detail_supported(usize::BITS as usize));
    assert_eq!(detail_levels(3), vec![0, 1, 2, 3]);
    assert_eq!(detail_levels(0), vec![0]);
}

#[test]
fn empty_mesh_has_empty_dual_and_bare_header() {
    let empty: Polyhedron<P> = Polyhedron::new();
    let mut dual: Polyhedron<P> = Polyhedron::new();
    assert_eq!(dual.truncated(&empty), Ok(()));
    assert_eq!(dual.faces().len(), 0);
    assert_eq!(dual.cells().len(), 0);
    assert_eq!(encode_binary(&empty, &vec![], &vec![]), Some(vec![0, 0, 0, 0, 0, 0, 0, 0]));
    assert_eq!(empty.polygon_counts(), PolygonCounts { hexagons: 0, pentagons: 0, others: 0 });
}

#[test]
fn dual_of_base_has_one_face_per_corner() {
    let base: Polyhedron<P> = Polyhedron::base_icosahedron();
    let mut dual: Polyhedron<P> = Polyhedron::new();
    assert_eq!(dual.truncated(&base), Ok(()));
    assert_eq!(dual.faces().len(), 12);
    assert_eq!(dual.cells().len(), 120);
    assert_eq!(dual.faces()[1], (10..20).collect::<Vec<usize>>());
}

#[test]
fn unused_vertex_has_no_dual() {
    let mut mesh: Polyhedron<P> = Polyhedron::new();
    mesh.add_position(p(5.0, 5.0, 5.0));
    let mut dual: Polyhedron<P> = Polyhedron::new();
    assert_eq!(dual.truncated(&mesh), Err(MeshError::IsolatedVertex { vertex: 0 }));
}

#[test]
fn midpoint_is_shared_by_both_cells_of_an_edge() {
    let base: Polyhedron<P> = Polyhedron::base_icosahedron();
    let around = base.vert_to_faces();
    let centroids = base.triangle_centroids();
    let mut cache: HashMap<u128, P> = HashMap::new();
    let faces = &around[0];
    let from_first = base
        .calculate_mid_centroid(0, 11, faces, 0, &centroids[0], &centroids, &mut cache)
        .unwrap();
    let from_second = base
        .calculate_mid_centroid(0, 11, faces, 4, &centroids[4], &centroids, &mut cache)
        .unwrap();
    assert_eq!(from_first, from_second);
    assert_eq!(cache.len(), 1);
    let expected = centroids[0].0.lerp(centroids[4].0, 0.5);
    assert_eq!(from_first.0, expected);
}

fn json_triples(rows: Vec<[f64; 3]>) -> serde_json::Value {
    serde_json::Value::Array(
        rows.into_iter()
            .map(|r| serde_json::Value::Array(r.iter().map(|x| serde_json::Value::from(*x)).collect()))
            .collect(),
    )
}

#[test]
fn json_mesh_object_round_trips() {
    let mut mesh = hexsphere(1.0, 1);
    mesh.compute_triangle_normals();
    let positions: Vec<[f32; 3]> = mesh.positions().iter().map(|q| [q.0.x, q.0.y, q.0.z]).collect();
    let normals: Vec<[f32; 3]> = mesh.normals().iter().map(|q| [q.0.x, q.0.y, q.0.z]).collect();
    let widen = |v: &Vec<[f32; 3]>| v.iter().map(|r| [r[0] as f64, r[1] as f64, r[2] as f64]).collect();
    let mut object = serde_json::Map::new();
    object.insert("positions".to_string(), json_triples(widen(&positions)));
    object.insert(
        "cells".to_string(),
        serde_json::Value::Array(
            mesh.cells()
                .iter()
                .map(|c| serde_json::Value::Array(vec![c.a.into(), c.b.into(), c.c.into()]))
                .collect(),
        ),
    );
    object.insert("normals".to_string(), json_triples(widen(&normals)));
    object.insert(
        "faces".to_string(),
        serde_json::Value::Array(
            mesh.faces()
                .iter()
                .map(|f| serde_json::Value::Array(f.iter().map(|t| (*t).into()).collect()))
                .collect(),
        ),
    );
    let text = serde_json::to_string(&serde_json::Value::Object(object)).unwrap();
    let back: serde_json::Value = serde_json::from_str(&text).unwrap();
    let read = |key: &str| -> Vec<[f32; 3]> {
        back[key]
            .as_array()
            .unwrap()
            .iter()
            .map(|r| {
                let r = r.as_array().unwrap();
                [r[0].as_f64().unwrap() as f32, r[1].as_f64().unwrap() as f32, r[2].as_f64().unwrap() as f32]
            })
            .collect()
    };
    assert_eq!(read("positions"), positions);
    assert_eq!(read("normals"), normals);
    let cells: Vec<Triangle> = back["cells"]
        .as_array()
        .unwrap()
        .iter()
        .map(|c| {
            let c = c.as_array().unwrap();
            Triangle::new(
                c[0].as_u64().unwrap() as usize,
                c[1].as_u64().unwrap() as usize,
                c[2].as_u64().unwrap() as usize,
            )
        })
        .collect();
    assert_eq!(&cells, mesh.cells());
    assert_eq!(back["faces"].as_array().unwrap().len(), mesh.faces().len());
}
