use rmf_sandbox::node::{Node, Number};
use rmf_sandbox::number::Coord;
use rmf_sandbox::vertex::{SchemaError, Vertex};

fn coord(f: f64) -> Coord {
    Coord::from_bits(f.to_bits())
}

fn float(f: f64) -> Node {
    Node::Number(Number { integer: None, value: coord(f) })
}

fn integer(i: i64) -> Node {
    Node::Number(Number { integer: Some(i), value: coord(i as f64) })
}

fn text(s: &str) -> Node {
    Node::String(s.to_string())
}

fn entry(k: &str, v: Node) -> (String, Node) {
    (k.to_string(), v)
}

fn value(c: Coord) -> f64 {
    f64::from_bits(c.bits)
}

#[test]
fn decodes_charger_record() {
    let v = Vertex::from_yaml(&Node::Sequence(vec![float(10.0), float(-20.0), integer(0), text("charger_1")]))
        .unwrap();
    assert_eq!(value(v.x_raw), 10.0);
    assert_eq!(value(v.y_raw), -20.0);
    assert_eq!(value(v.x_meters), 10.0);
    assert_eq!(value(v.y_meters), 20.0);
    assert_eq!(v.name, "charger_1");
    assert!(v.properties.is_charger.is_none());
}

#[test]
fn two_numbers_give_identity_metric_coordinates() {
    let v = Vertex::try_from(&vec![float(3.25), float(7.5)]).unwrap();
    assert_eq!(value(v.x_meters), 3.25);
    assert_eq!(value(v.y_meters), -7.5);
    assert_eq!(v.x_raw, v.x_meters);
}

#[test]
fn integer_coordinates_are_numbers() {
    let v = Vertex::try_from(&vec![integer(4), integer(-2)]).unwrap();
    assert_eq!(value(v.x_meters), 4.0);
    assert_eq!(value(v.y_meters), 2.0);
}

#[test]
fn name_defaults_to_empty() {
    let two = Vertex::try_from(&vec![float(1.0), float(2.0)]).unwrap();
    assert_eq!(two.name, "");
    let three = Vertex::try_from(&vec![float(1.0), float(2.0), integer(0)]).unwrap();
    assert_eq!(three.name, "");
    let four = Vertex::try_from(&vec![float(1.0), float(2.0), integer(0), text("dock")]).unwrap();
    assert_eq!(four.name, "dock");
}

#[test]
fn raw_y_is_recovered_from_metric_y() {
    let v = Vertex::try_from(&vec![float(0.0), float(5.0)]).unwrap();
    assert_eq!(value(v.y_raw), 5.0);
    assert_eq!(value(v.y_meters.neg()), 5.0);
    assert_eq!(v.y_meters.neg(), v.y_raw);
}

#[test]
fn negation_flips_sign_bit_only() {
    assert_eq!(value(coord(1.5).neg()), -1.5);
    assert_eq!(coord(0.0).neg().bits, (-0.0f64).to_bits());
    assert_eq!(coord(-8.0).neg().neg(), coord(-8.0));
}

#[test]
fn not_a_sequence_is_refused() {
    assert_eq!(Vertex::from_yaml(&float(1.0)).unwrap_err(), SchemaError::NotASequence);
}

#[test]
fn short_record_is_refused() {
    assert_eq!(Vertex::try_from(&vec![float(1.0)]).unwrap_err(), SchemaError::MissingCoordinate);
    assert_eq!(Vertex::try_from(&vec![]).unwrap_err(), SchemaError::MissingCoordinate);
}

#[test]
fn string_coordinate_is_refused() {
    assert_eq!(
        Vertex::try_from(&vec![text("a"), float(1.0)]).unwrap_err(),
        SchemaError::NotANumber(0)
    );
    assert_eq!(
        Vertex::try_from(&vec![float(1.0), Node::Null]).unwrap_err(),
        SchemaError::NotANumber(1)
    );
}

#[test]
fn non_string_name_is_refused() {
    assert_eq!(
        Vertex::try_from(&vec![float(1.0), float(1.0), integer(0), integer(7)]).unwrap_err(),
        SchemaError::NotAString(3)
    );
}

#[test]
fn vertex_properties_are_decoded() {
    let props = Node::Mapping(vec![
        entry("is_charger", Node::Sequence(vec![integer(4), Node::Bool(true)])),
        entry("spawn_robot_type", Node::Sequence(vec![integer(1), text("tinyRobot")])),
        entry("other", Node::Null),
    ]);
    let v = Vertex::try_from(&vec![float(1.0), float(1.0), integer(0), text("c"), props]).unwrap();
    let charger = v.properties.is_charger.unwrap();
    assert_eq!(charger.index, 4);
    assert!(charger.value);
    let robot = v.properties.spawn_robot_type.unwrap();
    assert_eq!(robot.index, 1);
    assert_eq!(robot.value, "tinyRobot");
    assert!(v.properties.is_parking_spot.is_none());
    assert!(v.properties.pickup_dispenser.is_none());
}

#[test]
fn malformed_properties_are_ignored() {
    let wrong_kind = Node::Mapping(vec![entry("is_charger", Node::Sequence(vec![integer(4), text("yes")]))]);
    let negative = Node::Mapping(vec![entry("is_charger", Node::Sequence(vec![integer(-1), Node::Bool(true)]))]);
    for extra in [wrong_kind, negative, integer(7)] {
        let v = Vertex::try_from(&vec![float(1.0), float(2.0), integer(0), text("a"), extra]).unwrap();
        assert_eq!(value(v.x_meters), 1.0);
        assert_eq!(value(v.y_meters), -2.0);
        assert_eq!(v.name, "a");
        assert!(v.properties.is_charger.is_none());
        assert!(v.properties.spawn_robot_type.is_none());
    }
}
