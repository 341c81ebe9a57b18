use vstd::prelude::*;

use crate::node::{number_value, Node};
use crate::number::{lemma_neg_involutive, Coord};
use crate::properties::{
    no_properties, node_properties, properties_well_formed, PropertiesView, VertexProperties,
};

verus! {

/// Why a vertex record could not be decoded.
#[derive(Clone, Copy, Debug, PartialEq, Eq, Structural)]
pub enum SchemaError {
    /// The node is not a sequence.
    NotASequence,
    /// The sequence has fewer than the two coordinates.
    MissingCoordinate,
    /// The element at this position should be a number.
    NotANumber(usize),
    /// The element at this position should be a string.
    NotAString(usize),
    /// The node is not a mapping.
    NotAMapping,
    /// A field of a mapping is missing or of the wrong kind.
    InvalidField,
}

/// A vertex of a level: its coordinates as drawn (raw space), its
/// coordinates in meters (metric space), its name and its properties.
#[derive(Clone, Debug)]
pub struct Vertex {
    pub x_raw: Coord,
    pub y_raw: Coord,
    pub x_meters: Coord,
    pub y_meters: Coord,
    pub name: String,
    pub properties: VertexProperties,
}

/// What a vertex holds, with its name as characters.
pub struct VertexView {
    pub x_raw: Coord,
    pub y_raw: Coord,
    pub x_meters: Coord,
    pub y_meters: Coord,
    pub name: Seq<char>,
    pub properties: PropertiesView,
}

impl View for Vertex {
    type V = VertexView;

    open spec fn view(&self) -> VertexView {
        VertexView {
            x_raw: self.x_raw,
            y_raw: self.y_raw,
            x_meters: self.x_meters,
            y_meters: self.y_meters,
            name: self.name@,
            properties: self.properties@,
        }
    }
}

/// The error that decoding the positional record `data` meets first, if
/// any: `[x, y]`, `[x, y, reserved]` or `[x, y, reserved, name, ...]`.
pub open spec fn record_error(data: Seq<Node>) -> Option<SchemaError> {
    if data.len() < 2 {
        Some(SchemaError::MissingCoordinate)
    } else if number_value(data[0]) is None {
        Some(SchemaError::NotANumber(0))
    } else if number_value(data[1]) is None {
        Some(SchemaError::NotANumber(1))
    } else if data.len() > 3 && !(data[3] is String) {
        Some(SchemaError::NotAString(3))
    } else {
        None
    }
}

/// The name that a record gives: its fourth element, or empty.
pub open spec fn record_name(data: Seq<Node>) -> Seq<char> {
    if data.len() > 3 {
        data[3]->String_0@
    } else {
        Seq::empty()
    }
}

/// The properties that a record gives: its fifth element where that is a
/// well-formed property mapping, else none. Elements after the name never
/// make a record fail.
pub open spec fn record_properties(data: Seq<Node>) -> PropertiesView {
    if data.len() > 4 && properties_well_formed(data[4]) {
        node_properties(data[4])
    } else {
        no_properties()
    }
}

/// The vertex that a well-formed record decodes to. The metric
/// coordinates are those of the identity transform, with the vertical
/// axis inverted: raw space grows downwards, metric space upwards.
pub open spec fn record_vertex(data: Seq<Node>) -> VertexView {
    let x = number_value(data[0])->Some_0;
    let y = number_value(data[1])->Some_0;
    VertexView {
        x_raw: x,
        y_raw: y,
        x_meters: x,
        y_meters: y.spec_neg(),
        name: record_name(data),
        properties: record_properties(data),
    }
}

/// The error that decoding the node `n` as a vertex meets, if any.
pub open spec fn node_error(n: Node) -> Option<SchemaError> {
    match n {
        Node::Sequence(data) => record_error(data@),
        _ => Some(SchemaError::NotASequence),
    }
}

/// The vertex that a well-formed node decodes to.
pub open spec fn node_vertex(n: Node) -> VertexView {
    record_vertex(n->Sequence_0@)
}

impl Vertex {
    /// Decodes a positional vertex record.
    pub fn try_from(data: &Vec<Node>) -> (r: Result<Vertex, SchemaError>)
        ensures
            match r {
                Ok(v) => record_error(data@) is None && v@ == record_vertex(data@),
                Err(e) => record_error(data@) == Some(e),
            },
    {
        if data.len() < 2 {
            return Err(SchemaError::MissingCoordinate);
        }
        let x_raw = match data[0].as_number() {
            Some(x) => x,
            None => return Err(SchemaError::NotANumber(0)),
        };
        let y_raw = match data[1].as_number() {
            Some(y) => y,
            None => return Err(SchemaError::NotANumber(1)),
        };
        let name = if data.len() > 3 {
            match &data[3] {
                Node::String(s) => s.clone(),
                _ => return Err(SchemaError::NotAString(3)),
            }
        } else {
            String::new()
        };
        let properties = if data.len() > 4 {
            match VertexProperties::from_yaml(&data[4]) {
                Some(p) => p,
                None => VertexProperties::none(),
            }
        } else {
            VertexProperties::none()
        };
        Ok(Vertex { x_raw, y_raw, x_meters: x_raw, y_meters: y_raw.neg(), name, properties })
    }

    /// Decodes a vertex from its node in the document.
    pub fn from_yaml(value: &Node) -> (r: Result<Vertex, SchemaError>)
        ensures
            match r {
                Ok(v) => node_error(*value) is None && v@ == node_vertex(*value),
                Err(e) => node_error(*value) == Some(e),
            },
    {
        match value {
            Node::Sequence(data) => Vertex::try_from(data),
            _ => Err(SchemaError::NotASequence),
        }
    }
}

/// A record of two numbers `[x, y]` decodes, under the identity transform,
/// to `x` meters across and the negation of `y` meters up.
pub proof fn lemma_metric_coordinates(data: Seq<Node>)
    requires
        data.len() == 2,
        number_value(data[0]) is Some,
        number_value(data[1]) is Some,
    ensures
        record_error(data) is None,
        record_vertex(data).x_meters == number_value(data[0])->Some_0,
        record_vertex(data).y_meters == number_value(data[1])->Some_0.spec_neg(),
{
}

/// A well-formed record with a fourth element is named by it; one of two
/// or three elements has the empty name.
pub proof fn lemma_record_name(data: Seq<Node>)
    requires
        record_error(data) is None,
    ensures
        data.len() > 3 ==> data[3] is String && record_vertex(data).name == data[3]->String_0@,
        data.len() <= 3 ==> record_vertex(data).name == Seq::<char>::empty(),
{
}

/// The raw vertical coordinate is kept as given, and inverting the metric
/// one gives it back bit for bit.
pub proof fn lemma_raw_y_recovered(data: Seq<Node>)
    requires
        record_error(data) is None,
    ensures
        record_vertex(data).y_raw == number_value(data[1])->Some_0,
        record_vertex(data).y_meters.spec_neg() == number_value(data[1])->Some_0,
{
    lemma_neg_involutive(number_value(data[1])->Some_0);
}

/// Whether a record decodes, and to which coordinates and name, depends on
/// its first four elements alone: the reserved third element is read for
/// nothing, and elements after the name never make a record fail.
pub proof fn lemma_first_four_elements_decide(a: Seq<Node>, b: Seq<Node>)
    requires
        a.len() >= 2 && b.len() >= 2,
        (a.len() > 3) == (b.len() > 3),
        a[0] == b[0],
        a[1] == b[1],
        a.len() > 3 ==> a[3] == b[3],
    ensures
        record_error(a) == record_error(b),
        record_error(a) is None ==> record_vertex(a).x_raw == record_vertex(b).x_raw
            && record_vertex(a).y_raw == record_vertex(b).y_raw && record_vertex(a).x_meters
            == record_vertex(b).x_meters && record_vertex(a).y_meters == record_vertex(b).y_meters
            && record_vertex(a).name == record_vertex(b).name,
{
}

} // verus!
