use vstd::prelude::*;

use crate::node::{integer_value, lookup, Node};

verus! {

/// A boolean property of a vertex, with the index that the document
/// tags it with.
#[derive(Clone, Copy, Debug, PartialEq, Eq, Structural)]
pub struct Flag {
    pub index: u64,
    pub value: bool,
}

/// A string property of a vertex, with the index that the document tags
/// it with.
#[derive(Clone, Debug)]
pub struct Label {
    pub index: u64,
    pub value: String,
}

/// What a label holds, with its value as characters.
pub struct LabelView {
    pub index: u64,
    pub value: Seq<char>,
}

impl View for Label {
    type V = LabelView;

    open spec fn view(&self) -> LabelView {
        LabelView { index: self.index, value: self.value@ }
    }
}

/// The named properties that a vertex may carry.
#[derive(Clone, Debug)]
pub struct VertexProperties {
    pub is_charger: Option<Flag>,
    pub is_parking_spot: Option<Flag>,
    pub is_holding_point: Option<Flag>,
    pub spawn_robot_name: Option<Label>,
    pub spawn_robot_type: Option<Label>,
    pub dropoff_ingestor: Option<Label>,
    pub pickup_dispenser: Option<Label>,
}

/// What a vertex's properties hold, over views.
pub struct PropertiesView {
    pub is_charger: Option<Flag>,
    pub is_parking_spot: Option<Flag>,
    pub is_holding_point: Option<Flag>,
    pub spawn_robot_name: Option<LabelView>,
    pub spawn_robot_type: Option<LabelView>,
    pub dropoff_ingestor: Option<LabelView>,
    pub pickup_dispenser: Option<LabelView>,
}

/// The view of an optional label.
pub open spec fn label_view(l: Option<Label>) -> Option<LabelView> {
    match l {
        Some(x) => Some(x@),
        None => None,
    }
}

impl View for VertexProperties {
    type V = PropertiesView;

    open spec fn view(&self) -> PropertiesView {
        PropertiesView {
            is_charger: self.is_charger,
            is_parking_spot: self.is_parking_spot,
            is_holding_point: self.is_holding_point,
            spawn_robot_name: label_view(self.spawn_robot_name),
            spawn_robot_type: label_view(self.spawn_robot_type),
            dropoff_ingestor: label_view(self.dropoff_ingestor),
            pickup_dispenser: label_view(self.pickup_dispenser),
        }
    }
}

/// The properties of a vertex that has none.
pub open spec fn no_properties() -> PropertiesView {
    PropertiesView {
        is_charger: None,
        is_parking_spot: None,
        is_holding_point: None,
        spawn_robot_name: None,
        spawn_robot_type: None,
        dropoff_ingestor: None,
        pickup_dispenser: None,
    }
}

/// The index of a property entry `[index, value]`, if it is a
/// non-negative integer and the entry has exactly two elements.
pub open spec fn entry_index(d: Seq<Node>) -> Option<u64> {
    if d.len() == 2 && integer_value(d[0]) is Some && integer_value(d[0])->Some_0 >= 0 {
        Some(integer_value(d[0])->Some_0 as u64)
    } else {
        None
    }
}

/// The boolean property under `key` of a property mapping: `Some(None)`
/// where it is absent, `None` where it is malformed.
pub open spec fn flag_entry(n: Node, key: Seq<char>) -> Option<Option<Flag>> {
    match lookup(n, key) {
        None => Some(None),
        Some(Node::Sequence(d)) => if entry_index(d@) is Some && d@[1] is Bool {
            Some(Some(Flag { index: entry_index(d@)->Some_0, value: d@[1]->Bool_0 }))
        } else {
            None
        },
        Some(_) => None,
    }
}

/// The string property under `key` of a property mapping: `Some(None)`
/// where it is absent, `None` where it is malformed.
pub open spec fn label_entry(n: Node, key: Seq<char>) -> Option<Option<LabelView>> {
    match lookup(n, key) {
        None => Some(None),
        Some(Node::Sequence(d)) => if entry_index(d@) is Some && d@[1] is String {
            Some(Some(LabelView { index: entry_index(d@)->Some_0, value: d@[1]->String_0@ }))
        } else {
            None
        },
        Some(_) => None,
    }
}

/// Whether a property mapping is well formed: a mapping in which each
/// known property that is present has the expected shape. Other keys are
/// ignored.
pub open spec fn properties_well_formed(n: Node) -> bool {
    &&& n is Mapping
    &&& flag_entry(n, "is_charger"@) is Some
    &&& flag_entry(n, "is_parking_spot"@) is Some
    &&& flag_entry(n, "is_holding_point"@) is Some
    &&& label_entry(n, "spawn_robot_name"@) is Some
    &&& label_entry(n, "spawn_robot_type"@) is Some
    &&& label_entry(n, "dropoff_ingestor"@) is Some
    &&& label_entry(n, "pickup_dispenser"@) is Some
}

/// The properties that a well-formed property mapping gives.
pub open spec fn node_properties(n: Node) -> PropertiesView {
    PropertiesView {
        is_charger: flag_entry(n, "is_charger"@)->Some_0,
        is_parking_spot: flag_entry(n, "is_parking_spot"@)->Some_0,
        is_holding_point: flag_entry(n, "is_holding_point"@)->Some_0,
        spawn_robot_name: label_entry(n, "spawn_robot_name"@)->Some_0,
        spawn_robot_type: label_entry(n, "spawn_robot_type"@)->Some_0,
        dropoff_ingestor: label_entry(n, "dropoff_ingestor"@)->Some_0,
        pickup_dispenser: label_entry(n, "pickup_dispenser"@)->Some_0,
    }
}

fn entry_index_of(d: &Vec<Node>) -> (r: Option<u64>)
    ensures
        r == entry_index(d@),
{
    if d.len() == 2 {
        match d[0].as_integer() {
            Some(i) => if i >= 0 {
                Some(i as u64)
            } else {
                None
            },
            None => None,
        }
    } else {
        None
    }
}

fn flag_of(n: &Node, key: &str) -> (r: Option<Option<Flag>>)
    ensures
        r == flag_entry(*n, key@),
{
    match n.get(&key.to_owned()) {
        None => Some(None),
        Some(Node::Sequence(d)) => match entry_index_of(d) {
            Some(index) => match &d[1] {
                Node::Bool(value) => Some(Some(Flag { index, value: *value })),
                _ => None,
            },
            None => None,
        },
        Some(_) => None,
    }
}

fn label_of(n: &Node, key: &str) -> (r: Option<Option<Label>>)
    ensures
        match r {
            Some(l) => label_entry(*n, key@) == Some(label_view(l)),
            None => label_entry(*n, key@) is None,
        },
{
    match n.get(&key.to_owned()) {
        None => Some(None),
        Some(Node::Sequence(d)) => match entry_index_of(d) {
            Some(index) => match &d[1] {
                Node::String(value) => Some(Some(Label { index, value: value.clone() })),
                _ => None,
            },
            None => None,
        },
        Some(_) => None,
    }
}

fn copy_label(l: &Option<Label>) -> (r: Option<Label>)
    ensures
        label_view(r) == label_view(*l),
{
    match l {
        Some(x) => Some(Label { index: x.index, value: x.value.clone() }),
        None => None,
    }
}

impl VertexProperties {
    /// The properties of a vertex that has none.
    pub fn none() -> (r: VertexProperties)
        ensures
            r@ == no_properties(),
    {
        VertexProperties {
            is_charger: None,
            is_parking_spot: None,
            is_holding_point: None,
            spawn_robot_name: None,
            spawn_robot_type: None,
            dropoff_ingestor: None,
            pickup_dispenser: None,
        }
    }

    /// Decodes a property mapping; `None` where it is not well formed.
    pub fn from_yaml(n: &Node) -> (r: Option<VertexProperties>)
        ensures
            match r {
                Some(p) => properties_well_formed(*n) && p@ == node_properties(*n),
                None => !properties_well_formed(*n),
            },
    {
        if !matches!(n, Node::Mapping(_)) {
            return None;
        }
        let a = flag_of(n, "is_charger");
        let b = flag_of(n, "is_parking_spot");
        let c = flag_of(n, "is_holding_point");
        let d = label_of(n, "spawn_robot_name");
        let e = label_of(n, "spawn_robot_type");
        let f = label_of(n, "dropoff_ingestor");
        let g = label_of(n, "pickup_dispenser");
        match (a, b, c, d, e, f, g) {
            (Some(a), Some(b), Some(c), Some(d), Some(e), Some(f), Some(g)) => Some(
                VertexProperties {
                    is_charger: a,
                    is_parking_spot: b,
                    is_holding_point: c,
                    spawn_robot_name: d,
                    spawn_robot_type: e,
                    dropoff_ingestor: f,
                    pickup_dispenser: g,
                },
            ),
            _ => None,
        }
    }

    /// A copy of these properties.
    pub fn copy(&self) -> (r: VertexProperties)
        ensures
            r@ == self@,
    {
        VertexProperties {
            is_charger: self.is_charger,
            is_parking_spot: self.is_parking_spot,
            is_holding_point: self.is_holding_point,
            spawn_robot_name: copy_label(&self.spawn_robot_name),
            spawn_robot_type: copy_label(&self.spawn_robot_type),
            dropoff_ingestor: copy_label(&self.dropoff_ingestor),
            pickup_dispenser: copy_label(&self.pickup_dispenser),
        }
    }
}

} // verus!
