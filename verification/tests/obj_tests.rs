use simplescene::error::ParseError;
use simplescene::objmesh::parse_obj;
use simplescene::objmesh::AxisOrder;

#[test]
fn obj_single_mesh() {
    let text = "o Mesh\nv 1 2 3\nv 4 5 6\nv 7 8 9\nf 1 2 3\n";
    let meshes = parse_obj(text, AxisOrder::swap_yz()).unwrap();
    assert_eq!(meshes.len(), 1);
    let m = &meshes[0];
    assert_eq!(m.name, "Mesh");
    assert_eq!(m.vertices.len(), 3);
    // y-up to z-up: the second and third coordinates swap
    assert_eq!(m.vertices[0].x, "1");
    assert_eq!(m.vertices[0].y, "3");
    assert_eq!(m.vertices[0].z, "2");
    // 0-based, winding reversed
    assert_eq!(m.indices, vec![2u16, 1, 0]);
}

#[test]
fn obj_keep_axes() {
    let text = "o M\nv 1 2 3\n";
    let meshes = parse_obj(text, AxisOrder::keep()).unwrap();
    assert_eq!(meshes[0].vertices[0].x, "1");
    assert_eq!(meshes[0].vertices[0].y, "2");
    assert_eq!(meshes[0].vertices[0].z, "3");
}

#[test]
fn obj_quad_face_expands() {
    let text = "o Q\nv 0 0 0\nv 1 0 0\nv 1 1 0\nv 0 1 0\nf 1 2 3 4\n";
    let meshes = parse_obj(text, AxisOrder::keep()).unwrap();
    assert_eq!(meshes[0].indices, vec![2u16, 1, 0, 3, 2, 0]);
}

#[test]
fn obj_flush_on_new_name() {
    let text = "o First\nv 1 1 1\nf 1 1 1\no Second\nv 2 2 2\n";
    let meshes = parse_obj(text, AxisOrder::keep()).unwrap();
    assert_eq!(meshes.len(), 2);
    assert_eq!(meshes[0].name, "First");
    assert_eq!(meshes[0].vertices.len(), 1);
    assert_eq!(meshes[0].indices, vec![0u16, 0, 0]);
    assert_eq!(meshes[1].name, "Second");
    assert_eq!(meshes[1].vertices.len(), 1);
    assert!(meshes[1].indices.is_empty());
}

#[test]
fn obj_empty_text() {
    let meshes = parse_obj("", AxisOrder::keep()).unwrap();
    assert!(meshes.is_empty());
}

#[test]
fn obj_unnamed_records_kept_for_first_mesh() {
    let text = "v 9 9 9\no Late\nv 1 1 1\n";
    let meshes = parse_obj(text, AxisOrder::keep()).unwrap();
    assert_eq!(meshes.len(), 1);
    assert_eq!(meshes[0].name, "Late");
    assert_eq!(meshes[0].vertices.len(), 2);
    assert_eq!(meshes[0].vertices[0].x, "9");
}

#[test]
fn obj_comment_lines_skipped() {
    let text = "# a comment\no M\nvt 0 0\nvn 1 0 0\nv 1 2 3\n";
    let meshes = parse_obj(text, AxisOrder::keep()).unwrap();
    assert_eq!(meshes.len(), 1);
    assert_eq!(meshes[0].vertices.len(), 1);
}

#[test]
fn obj_zero_face_index_fails() {
    let text = "o M\nv 1 1 1\nf 0 1 1\n";
    let err = parse_obj(text, AxisOrder::keep()).unwrap_err();
    assert!(matches!(err, ParseError::MalformedLine { .. }));
}

#[test]
fn obj_malformed_vertex_fails() {
    let text = "o M\nv 1 2\n";
    let err = parse_obj(text, AxisOrder::keep()).unwrap_err();
    match err {
        ParseError::MalformedLine { line, lineno } => {
            assert_eq!(line, "v 1 2");
            assert_eq!(lineno, 2);
        },
        other => panic!("expected a malformed line, got {:?}", other),
    }
}

#[test]
fn obj_unsupported_face_count_fails() {
    let text = "o M\nv 1 1 1\nf 1 1\n";
    let err = parse_obj(text, AxisOrder::keep()).unwrap_err();
    assert!(matches!(err, ParseError::UnsupportedPolygon { .. }));
}
