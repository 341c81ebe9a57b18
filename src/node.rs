use vstd::prelude::*;

use crate::number::Coord;

verus! {

/// A number of the document, with both of its readings: as a binary64
/// value, and as a signed integer where it is one.
#[derive(Clone, Copy, Debug, PartialEq, Eq, Structural)]
pub struct Number {
    pub integer: Option<i64>,
    pub value: Coord,
}

/// One node of a parsed building-map document.
#[derive(Debug)]
pub enum Node {
    Null,
    Bool(bool),
    Number(Number),
    String(String),
    Sequence(Vec<Node>),
    Mapping(Vec<(String, Node)>),
}

/// The binary64 reading of a number node.
pub open spec fn number_value(n: Node) -> Option<Coord> {
    match n {
        Node::Number(x) => Some(x.value),
        _ => None,
    }
}

/// The integer reading of a number node that holds an integer.
pub open spec fn integer_value(n: Node) -> Option<i64> {
    match n {
        Node::Number(x) => x.integer,
        _ => None,
    }
}

/// Position of the first entry of `entries` under `key`, if any.
pub open spec fn key_position(entries: Seq<(String, Node)>, key: Seq<char>) -> Option<int> {
    if exists|i: int| 0 <= i < entries.len() && (#[trigger] entries[i]).0@ == key {
        let i = choose|i: int|
            0 <= i < entries.len() && (#[trigger] entries[i]).0@ == key && forall|j: int|
                0 <= j < i ==> (#[trigger] entries[j]).0@ != key;
        Some(i)
    } else {
        None
    }
}

/// The value that a mapping node holds under `key`: the first entry wins.
pub open spec fn lookup(n: Node, key: Seq<char>) -> Option<Node> {
    match n {
        Node::Mapping(entries) => match key_position(entries@, key) {
            Some(i) => Some(entries@[i].1),
            None => None,
        },
        _ => None,
    }
}

impl Node {
    /// The number's binary64 reading, if the node is a number.
    pub fn as_number(&self) -> (r: Option<Coord>)
        ensures
            r == number_value(*self),
    {
        match self {
            Node::Number(x) => Some(x.value),
            _ => None,
        }
    }

    /// The number's integer reading, if the node is an integer.
    pub fn as_integer(&self) -> (r: Option<i64>)
        ensures
            r == integer_value(*self),
    {
        match self {
            Node::Number(x) => x.integer,
            _ => None,
        }
    }

    /// The value under `key`, if the node is a mapping that has the key.
    pub fn get(&self, key: &String) -> (r: Option<&Node>)
        ensures
            match r {
                Some(v) => lookup(*self, key@) == Some(*v),
                None => lookup(*self, key@) is None,
            },
    {
        match self {
            Node::Mapping(entries) => match key_index(entries, key) {
                Some(i) => Some(&entries[i].1),
                None => None,
            },
            _ => None,
        }
    }

    /// Takes the value under `key` out of the node, if it is a mapping
    /// that has the key.
    pub fn take(self, key: &String) -> (r: Option<Node>)
        ensures
            r == lookup(self, key@),
    {
        match self {
            Node::Mapping(mut entries) => {
                let ghost e = entries@;
                match key_index(&entries, key) {
                    Some(i) => {
                        let (_, v) = entries.remove(i);
                        assert(v == e[i as int].1);
                        Some(v)
                    },
                    None => None,
                }
            },
            _ => None,
        }
    }
}

/// Position of the first entry of `entries` under `key`, if any.
pub fn key_index(entries: &Vec<(String, Node)>, key: &String) -> (r: Option<usize>)
    ensures
        r matches Some(i) ==> i < entries@.len() && key_position(entries@, key@) == Some(i as int),
        r is None ==> key_position(entries@, key@) is None,
{
    let mut i: usize = 0;
    while i < entries.len()
        invariant
            0 <= i <= entries@.len(),
            forall|j: int| 0 <= j < i ==> (#[trigger] entries@[j]).0@ != key@,
        decreases entries@.len() - i,
    {
        if entries[i].0 == *key {
            let ghost e = entries@;
            proof {
                let ii = i as int;
                assert(0 <= ii < e.len() && (#[trigger] e[ii]).0@ == key@ && forall|j: int|
                    0 <= j < ii ==> (#[trigger] e[j]).0@ != key@);
                let k = choose|k: int|
                    0 <= k < e.len() && (#[trigger] e[k]).0@ == key@ && forall|j: int|
                        0 <= j < k ==> (#[trigger] e[j]).0@ != key@;
                if k < ii {
                    assert(e[k].0@ != key@);
                } else if k > ii {
                    assert(e[ii].0@ != key@);
                }
            }
            return Some(i);
        }
        i = i + 1;
    }
    None
}

} // verus!
