use rmf_sandbox::editable::Editable;
use rmf_sandbox::level::{Diagnostic, Edge, EntityKind, Level};
use rmf_sandbox::model::Model;
use rmf_sandbox::node::{Node, Number};
use rmf_sandbox::number::Coord;
use rmf_sandbox::site::{DocumentError, NotFoundError, SiteMap};
use rmf_sandbox::vertex::SchemaError;

fn float(f: f64) -> Node {
    Node::Number(Number { integer: None, value: Coord::from_bits(f.to_bits()) })
}

fn integer(i: i64) -> Node {
    Node::Number(Number { integer: Some(i), value: Coord::from_bits((i as f64).to_bits()) })
}

fn text(s: &str) -> Node {
    Node::String(s.to_string())
}

fn entry(k: &str, v: Node) -> (String, Node) {
    (k.to_string(), v)
}

fn vertex(x: f64, y: f64) -> Node {
    Node::Sequence(vec![float(x), float(y), integer(0), text("")])
}

fn edge(a: i64, b: i64) -> Node {
    Node::Sequence(vec![integer(a), integer(b), Node::Mapping(vec![])])
}

fn model(name: &str, x: f64, y: f64) -> Node {
    Node::Mapping(vec![
        entry("model_name", text("Chair")),
        entry("name", text(name)),
        entry("x", float(x)),
        entry("y", float(y)),
        entry("yaw", float(0.5)),
    ])
}

fn good_level() -> Node {
    Node::Mapping(vec![
        entry("vertices", Node::Sequence(vec![vertex(0.0, 0.0), vertex(1.0, 0.0), vertex(1.0, 1.0)])),
        entry("lanes", Node::Sequence(vec![edge(0, 1), edge(1, 2)])),
        entry("walls", Node::Sequence(vec![edge(2, 0)])),
        entry("measurements", Node::Sequence(vec![edge(0, 2)])),
        entry("models", Node::Sequence(vec![model("chair_1", 2.0, 3.0)])),
    ])
}

fn document(levels: Vec<(String, Node)>) -> Node {
    Node::Mapping(vec![entry("name", text("building")), entry("levels", Node::Mapping(levels))])
}

#[test]
fn level_loads_all_entities() {
    let l = Level::from_yaml("L1".to_string(), 0, &good_level());
    assert_eq!(l.name, "L1");
    assert_eq!(l.vertices.len(), 3);
    assert_eq!(l.lanes, vec![Edge { start: 0, end: 1, distance: None }, Edge { start: 1, end: 2, distance: None }]);
    assert_eq!(l.walls, vec![Edge { start: 2, end: 0, distance: None }]);
    assert_eq!(l.measurements, vec![Edge { start: 0, end: 2, distance: None }]);
    assert_eq!(l.models.len(), 1);
    assert!(l.diagnostics.is_empty());
}

#[test]
fn model_is_decoded() {
    let m = Model::from_yaml(&model("chair_1", 2.0, 3.0)).unwrap();
    assert_eq!(m.name, "chair_1");
    assert_eq!(m.model_name, "Chair");
    assert_eq!(f64::from_bits(m.x_meters.bits), 2.0);
    assert_eq!(f64::from_bits(m.y_meters.bits), -3.0);
    assert_eq!(f64::from_bits(m.y_raw.bits), 3.0);
    assert_eq!(f64::from_bits(m.yaw.bits), 0.5);
}

#[test]
fn malformed_model_is_refused() {
    assert_eq!(Model::from_yaml(&edge(0, 1)).unwrap_err(), SchemaError::NotAMapping);
    let no_yaw = Node::Mapping(vec![
        entry("model_name", text("Chair")),
        entry("name", text("c")),
        entry("x", float(1.0)),
        entry("y", float(1.0)),
    ]);
    assert_eq!(Model::from_yaml(&no_yaw).unwrap_err(), SchemaError::InvalidField);
}

#[test]
fn dangling_lane_is_dropped_with_one_diagnostic() {
    let doc = Node::Mapping(vec![
        entry("vertices", Node::Sequence(vec![vertex(0.0, 0.0), vertex(1.0, 0.0)])),
        entry("lanes", Node::Sequence(vec![edge(0, 1), edge(1, 2)])),
    ]);
    let l = Level::from_yaml("L1".to_string(), 0, &doc);
    assert_eq!(l.lanes, vec![Edge { start: 0, end: 1, distance: None }]);
    assert_eq!(
        l.diagnostics,
        vec![Diagnostic::DanglingReferenceError { entity: EntityKind::Lane, position: 1, index: 2 }]
    );
}

#[test]
fn negative_wall_index_is_dangling() {
    let doc = Node::Mapping(vec![
        entry("vertices", Node::Sequence(vec![vertex(0.0, 0.0), vertex(1.0, 0.0)])),
        entry("walls", Node::Sequence(vec![edge(-1, 0)])),
        entry("measurements", Node::Sequence(vec![edge(0, 5), edge(0, 1)])),
    ]);
    let l = Level::from_yaml("L1".to_string(), 0, &doc);
    assert!(l.walls.is_empty());
    assert_eq!(l.measurements, vec![Edge { start: 0, end: 1, distance: None }]);
    assert_eq!(
        l.diagnostics,
        vec![
            Diagnostic::DanglingReferenceError { entity: EntityKind::Wall, position: 0, index: -1 },
            Diagnostic::DanglingReferenceError { entity: EntityKind::Measurement, position: 0, index: 5 },
        ]
    );
}

#[test]
fn malformed_lane_is_a_schema_error() {
    let doc = Node::Mapping(vec![
        entry("vertices", Node::Sequence(vec![vertex(0.0, 0.0), vertex(1.0, 0.0)])),
        entry("lanes", Node::Sequence(vec![Node::Sequence(vec![integer(0), float(1.5)])])),
    ]);
    let l = Level::from_yaml("L1".to_string(), 0, &doc);
    assert!(l.lanes.is_empty());
    assert_eq!(
        l.diagnostics,
        vec![Diagnostic::SchemaError { entity: EntityKind::Lane, position: 0 }]
    );
}

#[test]
fn level_of_wrong_shape_gives_one_diagnostic() {
    let l = Level::from_yaml("L9".to_string(), 3, &integer(1));
    assert!(l.vertices.is_empty());
    assert_eq!(l.diagnostics, vec![Diagnostic::SchemaError { entity: EntityKind::Level, position: 3 }]);
    let doc = Node::Mapping(vec![
        entry("vertices", Node::Sequence(vec![vertex(0.0, 0.0)])),
        entry("lanes", integer(4)),
    ]);
    let l = Level::from_yaml("L2".to_string(), 1, &doc);
    assert_eq!(l.vertices.len(), 1);
    assert_eq!(l.diagnostics, vec![Diagnostic::SchemaError { entity: EntityKind::Level, position: 1 }]);
}

#[test]
fn malformed_vertex_does_not_affect_other_level() {
    let bad = Node::Mapping(vec![entry(
        "vertices",
        Node::Sequence(vec![vertex(0.0, 0.0), Node::Sequence(vec![text("x"), float(1.0)])]),
    )]);
    let doc = document(vec![entry("L1", good_level()), entry("L2", bad)]);
    let site = SiteMap::load(doc).unwrap();
    assert_eq!(site.levels.len(), 2);
    let l1 = site.level(&"L1".to_string()).unwrap();
    assert!(l1.diagnostics.is_empty());
    assert_eq!(l1.vertices.len(), 3);
    assert_eq!(l1.lanes.len(), 2);
    let l2 = site.level(&"L2".to_string()).unwrap();
    assert_eq!(l2.vertices.len(), 1);
    assert_eq!(
        l2.diagnostics,
        vec![Diagnostic::SchemaError { entity: EntityKind::Vertex, position: 1 }]
    );
}

#[test]
fn unknown_level_is_not_found() {
    let site = SiteMap::load(document(vec![entry("L1", good_level())])).unwrap();
    assert_eq!(site.level(&"L7".to_string()).unwrap_err(), NotFoundError);
    assert_eq!(site.level(&"L1".to_string()).unwrap().name, "L1");
}

#[test]
fn document_without_levels_fails() {
    assert_eq!(SiteMap::load(integer(3)).unwrap_err(), DocumentError);
    let no_levels = Node::Mapping(vec![entry("name", text("b"))]);
    assert_eq!(SiteMap::load(no_levels).unwrap_err(), DocumentError);
    let wrong = Node::Mapping(vec![entry("levels", Node::Sequence(vec![]))]);
    assert_eq!(SiteMap::load(wrong).unwrap_err(), DocumentError);
}

#[test]
fn empty_levels_mapping_loads_empty_site() {
    let site = SiteMap::load(document(vec![])).unwrap();
    assert!(site.levels.is_empty());
}

#[test]
fn levels_keep_document_order() {
    let site = SiteMap::load(document(vec![entry("B", good_level()), entry("A", good_level())])).unwrap();
    assert_eq!(site.levels[0].name, "B");
    assert_eq!(site.levels[1].name, "A");
}

#[test]
fn editables_enumerate_kind_across_site() {
    let site = SiteMap::load(document(vec![entry("L1", good_level()), entry("L2", good_level())])).unwrap();
    let lanes = site.editables(EntityKind::Lane);
    assert_eq!(lanes.len(), 4);
    assert!(matches!(lanes[1], Editable::Lane(Edge { start: 1, end: 2, distance: None })));
    let vertices = site.levels[0].editables(EntityKind::Vertex);
    assert_eq!(vertices.len(), 3);
    assert_eq!(vertices[2].kind(), EntityKind::Vertex);
    match &vertices[1] {
        Editable::Vertex(v) => assert_eq!(f64::from_bits(v.x_meters.bits), 1.0),
        _ => panic!("expected a vertex"),
    }
    let models = site.editables(EntityKind::Model);
    assert_eq!(models.len(), 2);
    assert!(site.editables(EntityKind::Level).is_empty());
}

#[test]
fn lifts_are_kept_as_read() {
    let lift = Node::Mapping(vec![entry("depth", float(2.0))]);
    let doc = Node::Mapping(vec![
        entry("levels", Node::Mapping(vec![entry("L1", good_level())])),
        entry("lifts", Node::Mapping(vec![entry("lift_1", lift)])),
    ]);
    let site = SiteMap::load(doc).unwrap();
    match site.lifts {
        Some(Node::Mapping(entries)) => {
            assert_eq!(entries.len(), 1);
            assert_eq!(entries[0].0, "lift_1");
        }
        _ => panic!("expected the lifts mapping"),
    }
    let without = SiteMap::load(document(vec![entry("L1", good_level())])).unwrap();
    assert!(without.lifts.is_none());
}

#[test]
fn measurement_keeps_its_distance() {
    let calibrated = Node::Sequence(vec![
        integer(0),
        integer(1),
        Node::Mapping(vec![entry("distance", Node::Sequence(vec![integer(3), float(5.25)]))]),
    ]);
    let doc = Node::Mapping(vec![
        entry("vertices", Node::Sequence(vec![vertex(0.0, 0.0), vertex(10.0, 0.0)])),
        entry("measurements", Node::Sequence(vec![calibrated])),
    ]);
    let l = Level::from_yaml("L1".to_string(), 0, &doc);
    assert_eq!(l.measurements.len(), 1);
    let d = l.measurements[0].distance.unwrap();
    assert_eq!(f64::from_bits(d.bits), 5.25);
    assert_eq!(l.measurements[0].start, 0);
    assert_eq!(l.measurements[0].end, 1);
}

#[test]
fn level_elevation_is_read() {
    let doc = Node::Mapping(vec![
        entry("elevation", float(3.5)),
        entry("vertices", Node::Sequence(vec![vertex(0.0, 0.0)])),
    ]);
    let l = Level::from_yaml("L2".to_string(), 0, &doc);
    assert_eq!(f64::from_bits(l.elevation.bits), 3.5);
    assert!(l.diagnostics.is_empty());
    let flat = Level::from_yaml("L1".to_string(), 0, &good_level());
    assert_eq!(f64::from_bits(flat.elevation.bits), 0.0);
    let wrong = Node::Mapping(vec![entry("elevation", text("high"))]);
    let l = Level::from_yaml("L3".to_string(), 2, &wrong);
    assert_eq!(f64::from_bits(l.elevation.bits), 0.0);
    assert_eq!(l.diagnostics, vec![Diagnostic::SchemaError { entity: EntityKind::Level, position: 2 }]);
}

#[test]
fn edges_name_vertex_records_of_the_document() {
    let doc = Node::Mapping(vec![
        entry(
            "vertices",
            Node::Sequence(vec![
                vertex(0.0, 0.0),
                Node::Sequence(vec![text("bad"), float(1.0)]),
                vertex(2.0, 0.0),
                vertex(3.0, 0.0),
            ]),
        ),
        entry("lanes", Node::Sequence(vec![edge(1, 2), edge(2, 3), edge(0, 4), edge(3, 0)])),
    ]);
    let l = Level::from_yaml("L1".to_string(), 0, &doc);
    assert_eq!(l.vertices.len(), 3);
    assert_eq!(
        l.lanes,
        vec![Edge { start: 1, end: 2, distance: None }, Edge { start: 2, end: 0, distance: None }]
    );
    assert_eq!(f64::from_bits(l.vertices[1].x_raw.bits), 2.0);
    assert_eq!(f64::from_bits(l.vertices[2].x_raw.bits), 3.0);
    assert_eq!(
        l.diagnostics,
        vec![
            Diagnostic::SchemaError { entity: EntityKind::Vertex, position: 1 },
            Diagnostic::UnloadedReferenceError { entity: EntityKind::Lane, position: 0, index: 1 },
            Diagnostic::DanglingReferenceError { entity: EntityKind::Lane, position: 2, index: 4 },
        ]
    );
}

#[test]
fn repeated_level_name_keeps_first() {
    let other = Node::Mapping(vec![entry("vertices", Node::Sequence(vec![vertex(9.0, 9.0)]))]);
    let doc = document(vec![entry("L1", good_level()), entry("L2", good_level()), entry("L1", other)]);
    let site = SiteMap::load(doc).unwrap();
    assert_eq!(site.levels.len(), 2);
    assert_eq!(site.level(&"L1".to_string()).unwrap().vertices.len(), 3);
    assert_eq!(site.diagnostics, vec![Diagnostic::DuplicateLevelError { position: 2 }]);
    let plain = SiteMap::load(document(vec![entry("L1", good_level())])).unwrap();
    assert!(plain.diagnostics.is_empty());
}
