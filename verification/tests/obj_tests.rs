use scop_core::obj::face::{collect_directive_values, directive_value, parse_face_vertex,
    parse_obj_index};
use scop_core::obj::mtl::{find_material_id, parse_mtl_text};
use scop_core::obj::parse::parse_obj_text;
use scop_core::obj::types::{IndexLabel, ObjErrorKind, ObjLoadOptions};

fn opts(triangulate: bool) -> ObjLoadOptions {
    ObjLoadOptions { triangulate, single_index: false }
}

#[test]
fn index_resolution_is_one_based() {
    assert_eq!(parse_obj_index("1", 4, 1, IndexLabel::Position), Ok(0));
    assert_eq!(parse_obj_index("4", 4, 1, IndexLabel::Position), Ok(3));
    assert_eq!(parse_obj_index("+2", 4, 1, IndexLabel::Position), Ok(1));
}

#[test]
fn negative_index_counts_from_end() {
    // count_so_far + value, 0-based
    assert_eq!(parse_obj_index("-1", 4, 1, IndexLabel::Position), Ok(3));
    assert_eq!(parse_obj_index("-4", 4, 1, IndexLabel::Position), Ok(0));
}

#[test]
fn zero_index_is_invalid() {
    let e = parse_obj_index("0", 4, 7, IndexLabel::Texcoord).unwrap_err();
    assert_eq!(e.line, 7);
    assert_eq!(e.kind, ObjErrorKind::ZeroIndex { label: IndexLabel::Texcoord });
}

#[test]
fn out_of_range_index_is_rejected() {
    let e = parse_obj_index("5", 4, 2, IndexLabel::Position).unwrap_err();
    assert_eq!(
        e.kind,
        ObjErrorKind::IndexOutOfRange {
            label: IndexLabel::Position,
            token: "5".to_string(),
            count: 4
        }
    );
    let e = parse_obj_index("-5", 4, 2, IndexLabel::Position).unwrap_err();
    assert!(matches!(e.kind, ObjErrorKind::IndexOutOfRange { .. }));
}

#[test]
fn index_before_any_data_is_rejected() {
    let e = parse_obj_index("1", 0, 2, IndexLabel::Normal).unwrap_err();
    assert_eq!(
        e.kind,
        ObjErrorKind::IndexBeforeData { label: IndexLabel::Normal, token: "1".to_string() }
    );
}

#[test]
fn malformed_index_is_rejected() {
    let e = parse_obj_index("two", 4, 2, IndexLabel::Position).unwrap_err();
    assert!(matches!(e.kind, ObjErrorKind::BadIndexNumber { .. }));
    let e = parse_obj_index("", 4, 2, IndexLabel::Position).unwrap_err();
    assert!(matches!(e.kind, ObjErrorKind::BadIndexNumber { .. }));
}

#[test]
fn face_vertex_grammar_forms() {
    // p
    assert_eq!(parse_face_vertex("2", 1, 4, 4, 4), Ok((1, None, None)));
    // p/t
    assert_eq!(parse_face_vertex("2/3", 1, 4, 4, 4), Ok((1, Some(2), None)));
    // p//n
    assert_eq!(parse_face_vertex("2//4", 1, 4, 4, 4), Ok((1, None, Some(3))));
    // p/t/n with negatives
    assert_eq!(
        parse_face_vertex("-1/-2/-3", 1, 4, 4, 4),
        Ok((3, Some(2), Some(1)))
    );
}

#[test]
fn face_vertex_with_extra_fields_is_rejected() {
    let e = parse_face_vertex("1/2/3/4", 9, 4, 4, 4).unwrap_err();
    assert_eq!(e.line, 9);
    assert!(matches!(e.kind, ObjErrorKind::InvalidFaceToken { .. }));
}

#[test]
fn face_vertex_without_position_is_rejected() {
    let e = parse_face_vertex("/2", 9, 4, 4, 4).unwrap_err();
    assert!(matches!(e.kind, ObjErrorKind::MissingPositionIndex { .. }));
}

#[test]
fn directive_value_trims_and_requires_content() {
    assert_eq!(
        directive_value("newmtl   Shiny  ", "newmtl", 1),
        Ok("Shiny".to_string())
    );
    let e = directive_value("newmtl   ", "newmtl", 3).unwrap_err();
    assert_eq!(e.line, 3);
    assert!(matches!(e.kind, ObjErrorKind::MissingDirectiveValue { .. }));
}

#[test]
fn collect_directive_values_stops_at_comment() {
    let parts: Vec<String> = ["mtllib", "a.mtl", "b.mtl", "#rest", "c.mtl"]
        .iter()
        .map(|s| s.to_string())
        .collect();
    let vs = collect_directive_values(&parts, "mtllib", 1).unwrap();
    assert_eq!(vs, vec!["a.mtl".to_string(), "b.mtl".to_string()]);

    let parts: Vec<String> = ["usemtl"].iter().map(|s| s.to_string()).collect();
    let e = collect_directive_values(&parts, "usemtl", 2).unwrap_err();
    assert!(matches!(e.kind, ObjErrorKind::MissingDirectiveValue { .. }));
}

#[test]
fn collect_directive_values_checks_the_directive_word() {
    let parts: Vec<String> = ["usemtl", "Mat"].iter().map(|s| s.to_string()).collect();
    let e = collect_directive_values(&parts, "mtllib", 4).unwrap_err();
    assert_eq!(e.line, 4);
    assert_eq!(e.kind, ObjErrorKind::ExpectedDirective { directive: "mtllib".to_string() });
}

#[test]
fn usemtl_without_value_is_rejected() {
    let e = parse_obj_text("usemtl
", &opts(true)).unwrap_err();
    assert_eq!(e.kind, ObjErrorKind::MissingDirectiveValue { directive: "usemtl".to_string() });
    let e = parse_obj_text("mtllib  # none
", &opts(true)).unwrap_err();
    assert_eq!(e.kind, ObjErrorKind::MissingDirectiveValue { directive: "mtllib".to_string() });
}

#[test]
fn mtl_directive_without_value_is_rejected() {
    let e = parse_mtl_text("newmtl
").unwrap_err();
    assert_eq!(e.line, 1);
    assert_eq!(e.kind, ObjErrorKind::MissingDirectiveValue { directive: "newmtl".to_string() });
    let e = parse_mtl_text("newmtl M
map_Kd   
").unwrap_err();
    assert_eq!(e.line, 2);
    assert_eq!(e.kind, ObjErrorKind::MissingDirectiveValue { directive: "map_Kd".to_string() });
}

#[test]
fn parses_face_line_with_inline_comment() {
    let obj_data = "\
v 0 0 0
v 1 0 0
v 0 1 0
f 1 2 3 # triangle
";
    let out = parse_obj_text(obj_data, &opts(true))
        .expect("OBJ with inline face comment should parse");
    assert_eq!(out.positions.len(), 3);
    assert_eq!(out.buckets.len(), 1);
    assert_eq!(out.buckets[0].material, None);
    assert_eq!(out.buckets[0].faces, vec![vec![(0, None, None), (1, None, None), (2, None, None)]]);
}

#[test]
fn parses_multiple_mtllib_entries() {
    let out = parse_obj_text(
        "\
mtllib a.mtl b.mtl
usemtl MatB
v 0 0 0
v 1 0 0
v 0 1 0
f 1 2 3
",
        &opts(true),
    )
    .expect("OBJ with multiple mtllib files should parse");
    assert_eq!(out.mtl_files, vec!["a.mtl".to_string(), "b.mtl".to_string()]);

    let mut materials = parse_mtl_text("newmtl MatA\n").expect("a.mtl should parse");
    materials.extend(parse_mtl_text("newmtl MatB\n").expect("b.mtl should parse"));
    assert_eq!(materials.len(), 2);
    assert!(materials.iter().any(|m| m.name == "MatA"));
    assert!(materials.iter().any(|m| m.name == "MatB"));

    let mat_b_index = find_material_id(&materials, "MatB").expect("MatB should be loaded");
    assert_eq!(out.buckets.len(), 1);
    assert_eq!(out.buckets[0].material, Some("MatB".to_string()));
    assert_eq!(mat_b_index, 1);
}

#[test]
fn quad_is_kept_whole_for_the_triangulator() {
    let out = parse_obj_text("v 0 0 0\nv 1 0 0\nv 1 1 0\nv 0 1 0\nf 1 2 3 4\n", &opts(true))
        .unwrap();
    assert_eq!(out.buckets.len(), 1);
    assert_eq!(
        out.buckets[0].faces,
        vec![vec![(0, None, None), (1, None, None), (2, None, None), (3, None, None)]]
    );
}

#[test]
fn non_triangular_face_needs_fan_splitting() {
    let e = parse_obj_text("v 0 0 0\nv 1 0 0\nv 1 1 0\nv 0 1 0\nf 1 2 3 4\n", &opts(false))
        .unwrap_err();
    assert_eq!(e.line, 5);
    assert_eq!(e.kind, ObjErrorKind::NonTriangularFace);
}

#[test]
fn malformed_vertex_component_is_rejected() {
    let e = parse_obj_text("v 0 zero 0\n", &opts(true)).unwrap_err();
    assert_eq!(e.line, 1);
    assert_eq!(e.kind, ObjErrorKind::BadNumericComponent { token: "zero".to_string() });
}

#[test]
fn float_literal_grammar_is_stds() {
    // every form str::parse::<f32> accepts
    let ok = "v 1e5 .5 -3.\nv +inf NaN -Infinity\nv 007 1.25e-3 2.E2\n";
    assert!(parse_obj_text(ok, &opts(true)).is_ok());
    for bad in ["v 1..2 0 0\n", "v 1e 0 0\n", "v . 0 0\n", "v 0x1 0 0\n", "v - 0 0\n"] {
        assert!(parse_obj_text(bad, &opts(true)).is_err(), "{bad:?} should be rejected");
    }
}

#[test]
fn vertex_lines_need_enough_components() {
    let e = parse_obj_text("v 1 2\n", &opts(true)).unwrap_err();
    assert_eq!(e.kind, ObjErrorKind::MissingComponents { directive: "v".to_string() });
    let e = parse_obj_text("vn 1 2\n", &opts(true)).unwrap_err();
    assert_eq!(e.kind, ObjErrorKind::MissingComponents { directive: "vn".to_string() });
    let e = parse_obj_text("vt 1\n", &opts(true)).unwrap_err();
    assert_eq!(e.kind, ObjErrorKind::MissingComponents { directive: "vt".to_string() });
    let e = parse_obj_text("v 0 0 0\nf 1 1\n", &opts(true)).unwrap_err();
    assert_eq!(e.kind, ObjErrorKind::MissingComponents { directive: "f".to_string() });
}

#[test]
fn texcoord_keeps_first_two_components() {
    let out = parse_obj_text("vt 0.5 0.25 0.9\n", &opts(true)).unwrap();
    assert_eq!(out.texcoords.len(), 1);
    assert_eq!(out.texcoords[0].u, "0.5");
    assert_eq!(out.texcoords[0].v, "0.25");
}

#[test]
fn unknown_directives_and_comments_are_ignored()  {
    let out = parse_obj_text("# header\no name\ns off\n\nv 1 2 3\n", &opts(true)).unwrap();
    assert_eq!(out.positions.len(), 1);
    assert_eq!(out.buckets.len(), 0);
}

#[test]
fn forward_reference_is_out_of_range() {
    // index 2 before the second position is defined
    let e = parse_obj_text("v 0 0 0\nf 1 2 1\n", &opts(true)).unwrap_err();
    assert_eq!(e.line, 2);
    assert!(matches!(e.kind, ObjErrorKind::IndexOutOfRange { .. }));
}

#[test]
fn mtl_records_and_maps() {
    let mats = parse_mtl_text(
        "\
# comment
newmtl A
map_Kd diff.bmp
map_Ks spec.bmp
bump normal.bmp
newmtl B
map_Bump other.bmp
unknown directive
",
    )
    .unwrap();
    assert_eq!(mats.len(), 2);
    assert_eq!(mats[0].name, "A");
    assert_eq!(mats[0].diffuse_texture, Some("diff.bmp".to_string()));
    assert_eq!(mats[0].specular_texture, Some("spec.bmp".to_string()));
    assert_eq!(mats[0].normal_texture, Some("normal.bmp".to_string()));
    assert_eq!(mats[1].name, "B");
    assert_eq!(mats[1].diffuse_texture, None);
    assert_eq!(mats[1].normal_texture, Some("other.bmp".to_string()));
}

#[test]
fn mtl_map_before_newmtl_is_dropped() {
    let mats = parse_mtl_text("map_Kd a.bmp\nnewmtl M\n").unwrap();
    assert_eq!(mats.len(), 1);
    assert_eq!(mats[0].diffuse_texture, None);
}

#[test]
fn duplicate_material_names_resolve_to_last() {
    let mats = parse_mtl_text("newmtl M\nmap_Kd first.bmp\nnewmtl M\nmap_Kd second.bmp\n")
        .unwrap();
    assert_eq!(mats.len(), 2);
    let id = find_material_id(&mats, "M").unwrap();
    assert_eq!(id, 1);
    assert_eq!(mats[id].diffuse_texture, Some("second.bmp".to_string()));
    assert_eq!(find_material_id(&mats, "absent"), None);
}
