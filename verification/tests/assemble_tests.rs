use scop_core::obj::assemble::{assemble_bucket, AssembleError, Vec2Bits, Vec3Bits};
use scop_core::obj::parse::parse_obj_text;
use scop_core::obj::triangulate::fan_triangulate;
use scop_core::obj::types::{FaceVertex, ObjLoadOptions};
use scop_core::scene::face_brightness_step;

fn v3(x: f32, y: f32, z: f32) -> Vec3Bits {
    Vec3Bits { x: x.to_bits(), y: y.to_bits(), z: z.to_bits() }
}

fn v2(u: f32, v: f32) -> Vec2Bits {
    Vec2Bits { u: u.to_bits(), v: v.to_bits() }
}

fn tri(a: FaceVertex, b: FaceVertex, c: FaceVertex) -> Vec<FaceVertex> {
    vec![a, b, c]
}

#[test]
fn identical_corner_keys_collapse_within_a_bucket() {
    let positions = vec![v3(0.0, 0.0, 0.0), v3(1.0, 0.0, 0.0), v3(0.0, 1.0, 0.0)];
    let normals = vec![v3(0.0, 0.0, 1.0)];
    let texcoords = vec![v2(0.5, 0.5)];
    // Two triangles sharing two corners with identical keys.
    let faces = vec![
        tri((0, Some(0), Some(0)), (1, Some(0), Some(0)), (2, Some(0), Some(0))),
        tri((2, Some(0), Some(0)), (1, Some(0), Some(0)), (0, Some(0), Some(0))),
    ];
    let m = assemble_bucket(&faces, &positions, &normals, &texcoords).unwrap();
    // three distinct keys, each reused by the second triangle
    assert_eq!(m.positions.len(), 3);
    assert_eq!(m.indices, vec![0, 1, 2, 2, 1, 0]);
}

#[test]
fn same_indices_with_different_key_stay_distinct() {
    let positions = vec![v3(0.0, 0.0, 0.0), v3(1.0, 0.0, 0.0), v3(0.0, 1.0, 0.0)];
    let normals = vec![v3(0.0, 0.0, 1.0)];
    let texcoords = vec![v2(0.0, 0.0), v2(1.0, 1.0)];
    // Corner 0 appears once with texcoord 0 and once with texcoord 1:
    // the key differs, so the vertex is not shared.
    let faces = vec![
        tri((0, Some(0), None), (1, Some(0), None), (2, Some(0), None)),
        tri((0, Some(1), None), (1, Some(0), None), (2, Some(0), None)),
    ];
    let m = assemble_bucket(&faces, &positions, &normals, &texcoords).unwrap();
    assert_eq!(m.positions.len(), 4);
    assert_eq!(m.indices, vec![0, 1, 2, 3, 1, 2]);
    // both vertices carry the same position, gathered by position index
    assert_eq!(m.positions[0], m.positions[3]);
}

#[test]
fn corners_in_different_buckets_stay_distinct() {
    let positions = vec![v3(0.0, 0.0, 0.0), v3(1.0, 0.0, 0.0), v3(0.0, 1.0, 0.0)];
    let normals = vec![];
    let texcoords = vec![];
    let faces_a = vec![tri((0, None, None), (1, None, None), (2, None, None))];
    let faces_b = vec![tri((0, None, None), (1, None, None), (2, None, None))];
    // Each bucket is assembled against its own key list: the shared keys
    // do not join the buffers.
    let a = assemble_bucket(&faces_a, &positions, &normals, &texcoords).unwrap();
    let b = assemble_bucket(&faces_b, &positions, &normals, &texcoords).unwrap();
    assert_eq!(a.positions.len(), 3);
    assert_eq!(b.positions.len(), 3);
    assert_eq!(a.indices, vec![0, 1, 2]);
    assert_eq!(b.indices, vec![0, 1, 2]);
}

#[test]
fn mixed_texcoord_presence_clears_uv_mapping() {
    let positions = vec![v3(0.0, 0.0, 0.0), v3(1.0, 0.0, 0.0), v3(0.0, 1.0, 0.0)];
    let normals = vec![];
    let texcoords = vec![v2(0.5, 0.5)];
    let faces = vec![tri((0, Some(0), None), (1, None, None), (2, Some(0), None))];
    let m = assemble_bucket(&faces, &positions, &normals, &texcoords).unwrap();
    assert!(!m.has_uv_mapping);
    assert!(m.texcoords.is_empty());
}

#[test]
fn full_texcoord_presence_publishes_uv_buffer() {
    let positions = vec![v3(0.0, 0.0, 0.0), v3(1.0, 0.0, 0.0), v3(0.0, 1.0, 0.0)];
    let normals = vec![];
    let texcoords = vec![v2(0.25, 0.75), v2(0.5, 0.5)];
    let faces = vec![tri((0, Some(1), None), (1, Some(0), None), (2, Some(0), None))];
    let m = assemble_bucket(&faces, &positions, &normals, &texcoords).unwrap();
    assert!(m.has_uv_mapping);
    assert_eq!(m.texcoords, vec![v2(0.5, 0.5), v2(0.25, 0.75), v2(0.25, 0.75)]);
}

#[test]
fn missing_normal_defaults_to_zero_vector() {
    let positions = vec![v3(0.0, 0.0, 0.0), v3(1.0, 0.0, 0.0), v3(0.0, 1.0, 0.0)];
    let normals = vec![v3(0.0, 0.0, 1.0)];
    let texcoords = vec![];
    let faces = vec![tri((0, None, Some(0)), (1, None, None), (2, None, Some(0)))];
    let m = assemble_bucket(&faces, &positions, &normals, &texcoords).unwrap();
    assert_eq!(m.normals[0], v3(0.0, 0.0, 1.0));
    // the bit pattern of floating-point zero is zero
    assert_eq!(m.normals[1], Vec3Bits { x: 0, y: 0, z: 0 });
}

#[test]
fn non_triangulated_face_is_a_hard_error() {
    let positions = vec![v3(0.0, 0.0, 0.0), v3(1.0, 0.0, 0.0)];
    let faces = vec![vec![(0, None, None), (1, None, None)]];
    let r = assemble_bucket(&faces, &positions, &vec![], &vec![]);
    assert_eq!(r.err(), Some(AssembleError::NonTriangulatedFace));
}

#[test]
fn out_of_range_corner_is_a_hard_error() {
    let positions = vec![v3(0.0, 0.0, 0.0)];
    let faces = vec![tri((0, None, None), (1, None, None), (0, None, None))];
    let r = assemble_bucket(&faces, &positions, &vec![], &vec![]);
    assert_eq!(r.err(), Some(AssembleError::CornerOutOfRange));
}

#[test]
fn fan_triangulation_yields_n_minus_2_triangles() {
    for n in 3..10usize {
        let tris = fan_triangulate(n);
        assert_eq!(tris.len(), n - 2);
        for (i, t) in tris.iter().enumerate() {
            assert_eq!(*t, [0, i + 1, i + 2]);
        }
    }
}

#[test]
fn minimal_obj_end_to_end() {
    let out = parse_obj_text(
        "v 0 0 0\nv 1 0 0\nv 0 1 0\nf 1 2 3\n",
        &ObjLoadOptions { triangulate: true, single_index: false },
    )
    .unwrap();
    assert_eq!(out.mtl_files.len(), 0);
    assert_eq!(out.buckets.len(), 1);
    assert_eq!(out.buckets[0].material, None);

    let positions: Vec<Vec3Bits> = out
        .positions
        .iter()
        .map(|c| {
            v3(
                c.x.parse::<f32>().unwrap(),
                c.y.parse::<f32>().unwrap(),
                c.z.parse::<f32>().unwrap(),
            )
        })
        .collect();
    let m = assemble_bucket(&out.buckets[0].faces, &positions, &vec![], &vec![]).unwrap();
    assert_eq!(m.indices, vec![0, 1, 2]);
    assert_eq!(m.positions.len(), 3);
    assert!(!m.has_uv_mapping);
    assert!(m.texcoords.is_empty());
    // triangle 0 sits on the first step of the shading ramp
    assert_eq!(face_brightness_step(0), 0);
    let brightness = (face_brightness_step(0) as f32 / 11.0) * 0.6 + 0.4;
    assert!((brightness - 0.4).abs() < 1e-6);
}
