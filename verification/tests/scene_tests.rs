use simplescene::error::ParseError;
use simplescene::geometry::draw_indices;
use simplescene::scene::SimpleSceneFile;

fn load(text: &str) -> Result<SimpleSceneFile, ParseError> {
    SimpleSceneFile::from_file("test.scene", text)
}

#[test]
fn cube_scenario() {
    let text = "start object\nname Cube\nlocation 1 2 3\nstart vertex\n0 0 0\n1 0 0\n1 1 0\n0 1 0\nend vertex\nstart polygon\n1 2 3 4\nend polygon\nend\n";
    let scene = load(text).unwrap();
    assert_eq!(scene.objects.len(), 1);
    let cube = &scene.objects[0];
    assert_eq!(cube.name, "Cube");
    let loc = (
        cube.location.x.parse::<f32>().unwrap(),
        cube.location.y.parse::<f32>().unwrap(),
        cube.location.z.parse::<f32>().unwrap(),
    );
    assert_eq!(loc, (1.0, 2.0, 3.0));
    assert_eq!(cube.vertices.len(), 4);
    assert_eq!(cube.quads.len(), 1);
    let q = &cube.quads[0];
    assert_eq!((q.a, q.b, q.c, q.d), (1, 2, 3, 4));
    assert_eq!(cube.triangles.len(), 0);
    assert!(cube.parent.is_none());
}

#[test]
fn triangle_zero_based() {
    let text = "start object\nname Tri\nstart vertex\n0 0 0\n1 0 0\n0 1 0\nend vertex\nstart polygon\n1 2 3\nend polygon\nend\n";
    let scene = load(text).unwrap();
    let obj = &scene.objects[0];
    let t = &obj.triangles[0];
    assert_eq!((t.a, t.b, t.c), (1, 2, 3));
    // 0-based draw indices, winding reversed: they cover exactly {0, 1, 2}.
    let draw = draw_indices(obj);
    assert_eq!(draw, vec![2u16, 1, 0]);
}

#[test]
fn quad_expansion() {
    let text = "start object\nname Quad\nstart vertex\n0 0 0\n1 0 0\n1 1 0\n0 1 0\nend vertex\nstart polygon\n1 2 3 4\nend polygon\nend\n";
    let scene = load(text).unwrap();
    let obj = &scene.objects[0];
    let draw = draw_indices(obj);
    // two triangles covering all four vertices
    assert_eq!(draw, vec![2u16, 1, 0, 3, 2, 0]);
    let t1 = &draw[0..3];
    let t2 = &draw[3..6];
    let mut covered: Vec<u16> = Vec::new();
    for i in t1.iter().chain(t2.iter()) {
        if !covered.contains(i) {
            covered.push(*i);
        }
    }
    covered.sort();
    assert_eq!(covered, vec![0u16, 1, 2, 3]);
    // the shared diagonal 0-2 runs in opposite directions in the two halves
    assert_eq!((t1[2], t1[0]), (0, 2));
    assert_eq!((t2[2], t2[1]), (0, 2));
}

#[test]
fn hierarchy_resolution() {
    let text = "start object\nname A\nend\nstart object\nname B\nparent A\nend\n";
    let scene = load(text).unwrap();
    assert_eq!(scene.objects.len(), 2);
    let a = &scene.objects[0];
    let b = &scene.objects[1];
    assert_eq!(a.name, "A");
    assert_eq!(b.name, "B");
    assert_eq!(b.parent, Some(0));
    assert_eq!(a.children, vec![1usize]);
    assert!(a.parent.is_none());
    assert!(b.children.is_empty());
}

#[test]
fn unresolved_parent_fails_load() {
    let text = "start object\nname B\nparent Z\nend\n";
    let err = load(text).unwrap_err();
    match err {
        ParseError::UnresolvedParent { child, parent } => {
            assert_eq!(child, "B");
            assert_eq!(parent, "Z");
        },
        other => panic!("expected an unresolved parent, got {:?}", other),
    }
}

#[test]
fn find_first_match_wins() {
    let text = "start object\nname Dup\ntype first\nend\nstart object\nname Dup\ntype second\nend\n";
    let scene = load(text).unwrap();
    let found = scene.find("Dup").unwrap();
    assert_eq!(found, 0);
    assert_eq!(scene.objects[found].typ, "first");
    assert!(scene.find("Missing").is_none());
}

#[test]
fn truncation_detected() {
    let text = "start object\nname Cut\nstart vertex\n0 0 0\n";
    let err = load(text).unwrap_err();
    assert!(matches!(err, ParseError::TruncatedFile { .. }));
}

#[test]
fn truncated_object_body() {
    let text = "start object\nname Open\n";
    let err = load(text).unwrap_err();
    assert!(matches!(err, ParseError::TruncatedFile { .. }));
}

#[test]
fn idempotent_reload() {
    let text = "start object\nname A\nlocation 1 2 3\nscale 4 5 6\nrotation 0 0 1 90\nstart vertex\n0 0 0\n1 1 1\n2 2 2\nend vertex\nstart polygon\n1 2 3\nend polygon\nstart group\nvisible\nend group\nend\nstart object\nname B\nparent A\nend\n";
    let first = load(text).unwrap();
    let second = load(text).unwrap();
    assert_eq!(first, second);
}

#[test]
fn malformed_float_fails() {
    let text = "start object\nname Bad\nlocation 1 x 3\nend\n";
    let err = load(text).unwrap_err();
    match err {
        ParseError::MalformedLine { line, lineno } => {
            assert_eq!(line, "location 1 x 3");
            assert_eq!(lineno, 3);
        },
        other => panic!("expected a malformed line, got {:?}", other),
    }
}

#[test]
fn missing_field_fails() {
    let text = "start object\nname\nend\n";
    let err = load(text).unwrap_err();
    assert!(matches!(err, ParseError::MalformedLine { .. }));
}

#[test]
fn unsupported_polygon_fails() {
    let text = "start object\nname P\nstart vertex\n0 0 0\n1 0 0\n1 1 0\n0 1 0\n1 1 1\nend vertex\nstart polygon\n1 2 3 4 5\nend polygon\nend\n";
    let err = load(text).unwrap_err();
    match err {
        ParseError::UnsupportedPolygon { line, .. } => {
            assert_eq!(line, "1 2 3 4 5");
        },
        other => panic!("expected an unsupported polygon, got {:?}", other),
    }
}

#[test]
fn out_of_range_index_fails() {
    let text = "start object\nname R\nstart vertex\n0 0 0\n1 0 0\nend vertex\nstart polygon\n1 2 5\nend polygon\nend\n";
    let err = load(text).unwrap_err();
    match err {
        ParseError::MalformedLine { line, lineno } => {
            assert_eq!(line, "1 2 5");
            assert_eq!(lineno, 8);
        },
        other => panic!("expected a malformed line, got {:?}", other),
    }
}

#[test]
fn zero_index_fails() {
    let text = "start object\nname Z\nstart vertex\n0 0 0\nend vertex\nstart polygon\n0 1 1\nend polygon\nend\n";
    let err = load(text).unwrap_err();
    assert!(matches!(err, ParseError::MalformedLine { .. }));
}

#[test]
fn index_overflow_fails() {
    let text = "start object\nname O\nstart vertex\n0 0 0\nend vertex\nstart polygon\n1 1 70000\nend polygon\nend\n";
    let err = load(text).unwrap_err();
    assert!(matches!(err, ParseError::MalformedLine { .. }));
}

#[test]
fn unknown_keywords_skipped() {
    let text = "banner line\n\nstart object\nname K\nshading smooth\nend\ntrailing line\n";
    let scene = load(text).unwrap();
    assert_eq!(scene.objects.len(), 1);
    assert_eq!(scene.objects[0].name, "K");
}

#[test]
fn rotation_and_groups_recorded() {
    let text = "start object\nname G\nrotation 0 0 1 90\nstart group\nvisible\nsolid\nend group\nend\n";
    let scene = load(text).unwrap();
    let obj = &scene.objects[0];
    let rot = obj.rotation.as_ref().unwrap();
    assert_eq!(rot.axis.x, "0");
    assert_eq!(rot.axis.y, "0");
    assert_eq!(rot.axis.z, "1");
    assert_eq!(rot.degrees, "90");
    assert_eq!(obj.groups, vec!["visible".to_string(), "solid".to_string()]);
}

#[test]
fn defaults_when_fields_unset() {
    let text = "start object\nend\n";
    let scene = load(text).unwrap();
    let obj = &scene.objects[0];
    assert_eq!(obj.name, "");
    assert_eq!(obj.typ, "");
    assert_eq!(obj.location.x, "0");
    assert_eq!(obj.location.y, "0");
    assert_eq!(obj.location.z, "0");
    assert_eq!(obj.scale.x, "0");
    assert!(obj.rotation.is_none());
    assert!(obj.vertices.is_empty());
    assert!(obj.groups.is_empty());
    assert!(obj.parent.is_none());
    assert!(obj.children.is_empty());
}

#[test]
fn empty_text_gives_empty_scene() {
    let scene = load("").unwrap();
    assert!(scene.objects.is_empty());
    assert_eq!(scene.path, "test.scene");
}

#[test]
fn extra_fields_rejected() {
    let err = load("start object\nlocation 1 2 3 4\nend\n").unwrap_err();
    assert!(matches!(err, ParseError::MalformedLine { .. }));
    let err = load("start object\nname a b\nend\n").unwrap_err();
    assert!(matches!(err, ParseError::MalformedLine { .. }));
}

#[test]
fn bare_start_rejected() {
    let err = load("start\n").unwrap_err();
    assert!(matches!(err, ParseError::MalformedLine { lineno: 1, .. }));
    let err = load("start object\nstart\nend\n").unwrap_err();
    assert!(matches!(err, ParseError::MalformedLine { lineno: 2, .. }));
}

#[test]
fn block_end_must_match_exactly() {
    // a vertex block ends only on the exact line `end vertex`; anything
    // else is a data line
    let err = load("start object\nstart vertex\nend vertex extra\nend vertex\nend\n").unwrap_err();
    assert!(matches!(err, ParseError::MalformedLine { lineno: 3, .. }));
}

#[test]
fn unknown_sub_block_skipped() {
    let scene = load("start object\nname U\nstart flavor\nend\n").unwrap();
    assert_eq!(scene.objects.len(), 1);
    assert_eq!(scene.objects[0].name, "U");
}

#[test]
fn self_parent_links_to_itself() {
    let text = "start object\nname S\nparent S\nend\n";
    let scene = load(text).unwrap();
    let s = &scene.objects[0];
    assert_eq!(s.parent, Some(0));
    assert_eq!(s.children, vec![0usize]);
}
