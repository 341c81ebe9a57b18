use vstd::prelude::*;

use crate::node::{lookup, number_value, Node};
use crate::number::Coord;
use crate::vertex::SchemaError;

verus! {

/// A placed 3D asset: which asset, under which name, where and facing
/// which way. Its position is given as drawn and in meters, as a vertex's.
#[derive(Clone, Debug)]
pub struct Model {
    pub name: String,
    pub model_name: String,
    pub x_raw: Coord,
    pub y_raw: Coord,
    pub x_meters: Coord,
    pub y_meters: Coord,
    pub yaw: Coord,
}

/// What a model holds, with its names as characters.
pub struct ModelView {
    pub name: Seq<char>,
    pub model_name: Seq<char>,
    pub x_raw: Coord,
    pub y_raw: Coord,
    pub x_meters: Coord,
    pub y_meters: Coord,
    pub yaw: Coord,
}

impl View for Model {
    type V = ModelView;

    open spec fn view(&self) -> ModelView {
        ModelView {
            name: self.name@,
            model_name: self.model_name@,
            x_raw: self.x_raw,
            y_raw: self.y_raw,
            x_meters: self.x_meters,
            y_meters: self.y_meters,
            yaw: self.yaw,
        }
    }
}

/// The number that a mapping holds under `key`.
pub open spec fn number_field(n: Node, key: Seq<char>) -> Option<Coord> {
    match lookup(n, key) {
        Some(v) => number_value(v),
        None => None,
    }
}

/// The string that a mapping holds under `key`.
pub open spec fn string_field(n: Node, key: Seq<char>) -> Option<Seq<char>> {
    match lookup(n, key) {
        Some(Node::String(s)) => Some(s@),
        _ => None,
    }
}

/// The error that decoding the node `n` as a model meets, if any: a model
/// is a mapping with numbers under `x`, `y` and `yaw` and strings under
/// `name` and `model_name`.
pub open spec fn model_error(n: Node) -> Option<SchemaError> {
    if !(n is Mapping) {
        Some(SchemaError::NotAMapping)
    } else if number_field(n, "x"@) is None || number_field(n, "y"@) is None || number_field(
        n,
        "yaw"@,
    ) is None || string_field(n, "name"@) is None || string_field(n, "model_name"@) is None {
        Some(SchemaError::InvalidField)
    } else {
        None
    }
}

/// The model that a well-formed node decodes to, with the vertical axis
/// inverted in metric space as for vertices.
pub open spec fn node_model(n: Node) -> ModelView {
    let x = number_field(n, "x"@)->Some_0;
    let y = number_field(n, "y"@)->Some_0;
    ModelView {
        name: string_field(n, "name"@)->Some_0,
        model_name: string_field(n, "model_name"@)->Some_0,
        x_raw: x,
        y_raw: y,
        x_meters: x,
        y_meters: y.spec_neg(),
        yaw: number_field(n, "yaw"@)->Some_0,
    }
}

fn get_number(n: &Node, key: &str) -> (r: Option<Coord>)
    ensures
        r == number_field(*n, key@),
{
    match n.get(&key.to_owned()) {
        Some(v) => v.as_number(),
        None => None,
    }
}

fn get_string(n: &Node, key: &str) -> (r: Option<String>)
    ensures
        match r {
            Some(s) => string_field(*n, key@) == Some(s@),
            None => string_field(*n, key@) is None,
        },
{
    match n.get(&key.to_owned()) {
        Some(Node::String(s)) => Some(s.clone()),
        _ => None,
    }
}

impl Model {
    /// Decodes a model from its node in the document.
    pub fn from_yaml(value: &Node) -> (r: Result<Model, SchemaError>)
        ensures
            match r {
                Ok(m) => model_error(*value) is None && m@ == node_model(*value),
                Err(e) => model_error(*value) == Some(e),
            },
    {
        if !matches!(value, Node::Mapping(_)) {
            return Err(SchemaError::NotAMapping);
        }
        let x = get_number(value, "x");
        let y = get_number(value, "y");
        let yaw = get_number(value, "yaw");
        let name = get_string(value, "name");
        let model_name = get_string(value, "model_name");
        match (x, y, yaw, name, model_name) {
            (Some(x), Some(y), Some(yaw), Some(name), Some(model_name)) => Ok(
                Model { name, model_name, x_raw: x, y_raw: y, x_meters: x, y_meters: y.neg(), yaw },
            ),
            _ => Err(SchemaError::InvalidField),
        }
    }
}

} // verus!
