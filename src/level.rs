use vstd::prelude::*;

use crate::model::{model_error, node_model, number_field, Model, ModelView};
use crate::node::{integer_value, lookup, number_value, Node};
use crate::number::Coord;
use crate::vertex::{node_error, node_vertex, Vertex, VertexView};

verus! {

/// The kinds of entity that a level holds, and the level itself.
#[derive(Clone, Copy, Debug, PartialEq, Eq, Structural)]
pub enum EntityKind {
    Vertex,
    Lane,
    Wall,
    Measurement,
    Model,
    Level,
}

/// A problem met while loading, recorded instead of aborting the load.
#[derive(Clone, Copy, Debug, PartialEq, Eq, Structural)]
pub enum Diagnostic {
    /// The entity at `position` of its list (for a level: the level's
    /// position in the document) does not have the expected shape.
    SchemaError { entity: EntityKind, position: usize },
    /// The entity at `position` of its list refers to vertex record
    /// `index`, which the level's document does not have.
    DanglingReferenceError { entity: EntityKind, position: usize, index: i64 },
    /// The entity at `position` of its list refers to vertex record
    /// `index`, which the level has but which did not decode.
    UnloadedReferenceError { entity: EntityKind, position: usize, index: i64 },
    /// The level at `position` of the document has the name of an earlier
    /// level, and is left out.
    DuplicateLevelError { position: usize },
}

/// A lane, wall or measurement: a segment between two vertices of its
/// level, given by their positions in the level's vertex list. A
/// measurement also gives the real length of the segment, in meters.
#[derive(Clone, Copy, Debug, PartialEq, Eq, Structural)]
pub struct Edge {
    pub start: usize,
    pub end: usize,
    pub distance: Option<Coord>,
}

/// The `distance` property of an edge record `[start, end, properties]`,
/// written `distance: [index, value]`; none where the record does not
/// give it in that shape.
pub open spec fn edge_distance(n: Node) -> Option<Coord> {
    match n {
        Node::Sequence(d) => if d@.len() > 2 {
            match lookup(d@[2], "distance"@) {
                Some(Node::Sequence(p)) => if p@.len() == 2 {
                    number_value(p@[1])
                } else {
                    None
                },
                _ => None,
            }
        } else {
            None
        },
        _ => None,
    }
}

fn distance_of(n: &Node) -> (r: Option<Coord>)
    ensures
        r == edge_distance(*n),
{
    match n {
        Node::Sequence(d) => if d.len() > 2 {
            match d[2].get(&"distance".to_owned()) {
                Some(Node::Sequence(p)) => if p.len() == 2 {
                    p[1].as_number()
                } else {
                    None
                },
                _ => None,
            }
        } else {
            None
        },
        _ => None,
    }
}

/// The two vertex indices of an edge record `[start, end, ...]`.
pub open spec fn edge_indices(n: Node) -> Option<(i64, i64)> {
    match n {
        Node::Sequence(d) => if d@.len() >= 2 && integer_value(d@[0]) is Some && integer_value(
            d@[1],
        ) is Some {
            Some((integer_value(d@[0])->Some_0, integer_value(d@[1])->Some_0))
        } else {
            None
        },
        _ => None,
    }
}

/// Whether `i` is the index of one of `n` vertex records.
pub open spec fn in_bounds(i: i64, n: nat) -> bool {
    0 <= i < n
}

/// Where the vertex record at index `k` of `records` stands in the level's
/// vertex list: the number of records before it that decode, or `None`
/// where it does not decode itself.
#[verifier::opaque]
pub open spec fn vertex_slot(records: Seq<Node>, k: int) -> Option<usize> {
    if node_error(records[k]) is None {
        Some(kept_vertices(records.subrange(0, k)).len() as usize)
    } else {
        None
    }
}

/// The slot of each vertex record of `records`.
pub open spec fn vertex_slots(records: Seq<Node>) -> Seq<Option<usize>> {
    Seq::new(records.len(), |k: int| vertex_slot(records, k))
}

/// The edge that the record `n` at `position` of its list resolves to,
/// where its indices name vertex records of the document and `slots`
/// gives where each record stands in the level's vertex list; or the
/// diagnostic that drops it.
pub open spec fn resolve_edge(
    entity: EntityKind,
    position: int,
    n: Node,
    slots: Seq<Option<usize>>,
) -> Result<Edge, Diagnostic> {
    let p = position as usize;
    match edge_indices(n) {
        None => Err(Diagnostic::SchemaError { entity, position: p }),
        Some((s, e)) => if !in_bounds(s, slots.len()) {
            Err(Diagnostic::DanglingReferenceError { entity, position: p, index: s })
        } else if !in_bounds(e, slots.len()) {
            Err(Diagnostic::DanglingReferenceError { entity, position: p, index: e })
        } else if slots[s as int] is None {
            Err(Diagnostic::UnloadedReferenceError { entity, position: p, index: s })
        } else if slots[e as int] is None {
            Err(Diagnostic::UnloadedReferenceError { entity, position: p, index: e })
        } else {
            Ok(
                Edge {
                    start: slots[s as int]->Some_0,
                    end: slots[e as int]->Some_0,
                    distance: edge_distance(n),
                },
            )
        },
    }
}

/// The edges of `nodes` that resolve, in their order.
pub open spec fn kept_edges(entity: EntityKind, nodes: Seq<Node>, slots: Seq<Option<usize>>) -> Seq<
    Edge,
>
    decreases nodes.len(),
{
    if nodes.len() == 0 {
        Seq::empty()
    } else {
        let prev = kept_edges(entity, nodes.drop_last(), slots);
        match resolve_edge(entity, nodes.len() - 1, nodes.last(), slots) {
            Ok(e) => prev.push(e),
            Err(_) => prev,
        }
    }
}

/// The diagnostics of the edges of `nodes` that do not resolve, in order.
pub open spec fn edge_diagnostics(
    entity: EntityKind,
    nodes: Seq<Node>,
    slots: Seq<Option<usize>>,
) -> Seq<Diagnostic>
    decreases nodes.len(),
{
    if nodes.len() == 0 {
        Seq::empty()
    } else {
        let prev = edge_diagnostics(entity, nodes.drop_last(), slots);
        match resolve_edge(entity, nodes.len() - 1, nodes.last(), slots) {
            Ok(_) => prev,
            Err(d) => prev.push(d),
        }
    }
}

/// The vertices of `nodes` that decode, in their order.
pub open spec fn kept_vertices(nodes: Seq<Node>) -> Seq<VertexView>
    decreases nodes.len(),
{
    if nodes.len() == 0 {
        Seq::empty()
    } else {
        let prev = kept_vertices(nodes.drop_last());
        if node_error(nodes.last()) is None {
            prev.push(node_vertex(nodes.last()))
        } else {
            prev
        }
    }
}

/// The diagnostics of the vertices of `nodes` that do not decode.
pub open spec fn vertex_diagnostics(nodes: Seq<Node>) -> Seq<Diagnostic>
    decreases nodes.len(),
{
    if nodes.len() == 0 {
        Seq::empty()
    } else {
        let prev = vertex_diagnostics(nodes.drop_last());
        if node_error(nodes.last()) is None {
            prev
        } else {
            prev.push(
                Diagnostic::SchemaError {
                    entity: EntityKind::Vertex,
                    position: (nodes.len() - 1) as usize,
                },
            )
        }
    }
}

/// Every kept edge joins two of the `nv` vertices, where every slot is
/// below `nv`.
pub proof fn lemma_kept_edges_in_bounds(
    entity: EntityKind,
    nodes: Seq<Node>,
    slots: Seq<Option<usize>>,
    nv: nat,
)
    requires
        forall|k: int| 0 <= k < slots.len() && (#[trigger] slots[k]) is Some ==> slots[k]->Some_0 < nv,
    ensures
        edges_in_bounds(kept_edges(entity, nodes, slots), nv),
    decreases nodes.len(),
{
    if nodes.len() > 0 {
        lemma_kept_edges_in_bounds(entity, nodes.drop_last(), slots, nv);
        let prev = kept_edges(entity, nodes.drop_last(), slots);
        let cur = kept_edges(entity, nodes, slots);
        assert forall|i: int| 0 <= i < cur.len() implies cur[i].start < nv && cur[i].end < nv by {
            if i < prev.len() {
                assert(cur[i] == prev[i]);
            }
        }
    }
}

/// The kept lanes, walls and measurements of a level all join vertices of
/// the level.
pub proof fn lemma_level_edges_in_bounds(
    records: Seq<Node>,
    lanes: Seq<Node>,
    walls: Seq<Node>,
    measurements: Seq<Node>,
)
    requires
        records.len() <= usize::MAX,
    ensures
        ({
            let slots = vertex_slots(records);
            let nv = kept_vertices(records).len();
            &&& edges_in_bounds(kept_edges(EntityKind::Lane, lanes, slots), nv)
            &&& edges_in_bounds(kept_edges(EntityKind::Wall, walls, slots), nv)
            &&& edges_in_bounds(kept_edges(EntityKind::Measurement, measurements, slots), nv)
        }),
{
    let slots = vertex_slots(records);
    let nv = kept_vertices(records).len();
    lemma_slots_in_bounds(records);
    lemma_kept_edges_in_bounds(EntityKind::Lane, lanes, slots, nv);
    lemma_kept_edges_in_bounds(EntityKind::Wall, walls, slots, nv);
    lemma_kept_edges_in_bounds(EntityKind::Measurement, measurements, slots, nv);
}

/// No more vertices decode than there are records.
pub proof fn lemma_kept_vertices_len(records: Seq<Node>)
    ensures
        kept_vertices(records).len() <= records.len(),
    decreases records.len(),
{
    if records.len() > 0 {
        lemma_kept_vertices_len(records.drop_last());
    }
}

/// The vertices that decode from a prefix of the records are no more than
/// those that decode from all of them.
pub proof fn lemma_kept_vertices_prefix(records: Seq<Node>, j: int)
    requires
        0 <= j <= records.len(),
    ensures
        kept_vertices(records.subrange(0, j)).len() <= kept_vertices(records).len(),
    decreases records.len(),
{
    if j == records.len() {
        assert(records.subrange(0, j) =~= records);
    } else {
        lemma_kept_vertices_prefix(records.drop_last(), j);
        assert(records.drop_last().subrange(0, j) =~= records.subrange(0, j));
    }
}

/// Every slot of a decoding record is a position of the level's vertex
/// list.
pub proof fn lemma_slots_in_bounds(records: Seq<Node>)
    requires
        records.len() <= usize::MAX,
    ensures
        forall|k: int|
            0 <= k < records.len() && (#[trigger] vertex_slots(records)[k]) is Some
                ==> vertex_slots(records)[k]->Some_0 < kept_vertices(records).len(),
{
        reveal(vertex_slot);
    assert forall|k: int|
        0 <= k < records.len() && (#[trigger] vertex_slots(records)[k]) is Some implies vertex_slots(
        records,
    )[k]->Some_0 < kept_vertices(records).len() by {
        let pre = records.subrange(0, k);
        let next = records.subrange(0, k + 1);
        assert(next.drop_last() =~= pre);
        lemma_kept_vertices_len(pre);
        lemma_kept_vertices_prefix(records, k + 1);
    }
}

/// Resolves the edge records `nodes` against the vertex records whose
/// slots are `slots`: returns the edges that resolve and appends a
/// diagnostic for each one that does not.
pub fn resolve_edges(
    entity: EntityKind,
    nodes: &Vec<Node>,
    slots: &Vec<Option<usize>>,
    diagnostics: &mut Vec<Diagnostic>,
) -> (r: Vec<Edge>)
    ensures
        r@ == kept_edges(entity, nodes@, slots@),
        final(diagnostics)@ == old(diagnostics)@ + edge_diagnostics(entity, nodes@, slots@),
{
    let mut kept: Vec<Edge> = Vec::new();
    let mut i: usize = 0;
    while i < nodes.len()
        invariant
            0 <= i <= nodes@.len(),
            kept@ == kept_edges(entity, nodes@.subrange(0, i as int), slots@),
            diagnostics@ == old(diagnostics)@ + edge_diagnostics(
                entity,
                nodes@.subrange(0, i as int),
                slots@,
            ),
        decreases nodes@.len() - i,
    {
        let ghost prefix = nodes@.subrange(0, i as int);
        let ghost next = nodes@.subrange(0, i + 1);
        assert(next.drop_last() =~= prefix);
        assert(next.last() == nodes@[i as int]);
        let ghost before = diagnostics@;
        let pos: usize = i;
        let mut indices: Option<(i64, i64)> = None;
        if let Node::Sequence(d) = &nodes[i] {
            if d.len() >= 2 {
                if let (Some(s), Some(e)) = (d[0].as_integer(), d[1].as_integer()) {
                    indices = Some((s, e));
                }
            }
        }
        assert(indices == edge_indices(nodes@[i as int]));
        match indices {
            None => {
                diagnostics.push(Diagnostic::SchemaError { entity, position: pos });
            },
            Some((s, e)) => {
                if s < 0 || s as u64 >= slots.len() as u64 {
                    diagnostics.push(
                        Diagnostic::DanglingReferenceError { entity, position: pos, index: s },
                    );
                } else if e < 0 || e as u64 >= slots.len() as u64 {
                    diagnostics.push(
                        Diagnostic::DanglingReferenceError { entity, position: pos, index: e },
                    );
                } else {
                    match (slots[s as usize], slots[e as usize]) {
                        (None, _) => {
                            diagnostics.push(
                                Diagnostic::UnloadedReferenceError { entity, position: pos, index: s },
                            );
                        },
                        (_, None) => {
                            diagnostics.push(
                                Diagnostic::UnloadedReferenceError { entity, position: pos, index: e },
                            );
                        },
                        (Some(a), Some(b)) => {
                            kept.push(Edge { start: a, end: b, distance: distance_of(&nodes[i]) });
                        },
                    }
                }
            },
        }
        assert(diagnostics@ =~= old(diagnostics)@ + edge_diagnostics(entity, next, slots@)) by {
            assert(before =~= old(diagnostics)@ + edge_diagnostics(entity, prefix, slots@));
        }
        i = i + 1;
    }
    assert(nodes@.subrange(0, nodes@.len() as int) =~= nodes@);
    kept
}

/// Decodes the vertex records `nodes`: returns the vertices that decode,
/// with the slot of each record, and appends a diagnostic for each record
/// that does not decode.
pub fn decode_vertices(nodes: &Vec<Node>, diagnostics: &mut Vec<Diagnostic>) -> (r: (
    Vec<Vertex>,
    Vec<Option<usize>>,
))
    ensures
        vertex_views(r.0@) == kept_vertices(nodes@),
        r.1@ == vertex_slots(nodes@),
        final(diagnostics)@ == old(diagnostics)@ + vertex_diagnostics(nodes@),
{
    let mut kept: Vec<Vertex> = Vec::new();
    let mut slots: Vec<Option<usize>> = Vec::new();
    let mut i: usize = 0;
    while i < nodes.len()
        invariant
            0 <= i <= nodes@.len(),
            vertex_views(kept@) == kept_vertices(nodes@.subrange(0, i as int)),
            slots@.len() == i,
            forall|k: int| 0 <= k < i ==> slots@[k] == vertex_slot(nodes@, k),
            diagnostics@ == old(diagnostics)@ + vertex_diagnostics(nodes@.subrange(0, i as int)),
        decreases nodes@.len() - i,
    {
        let ghost prefix = nodes@.subrange(0, i as int);
        let ghost next = nodes@.subrange(0, i + 1);
        assert(next.drop_last() =~= prefix);
        assert(next.last() == nodes@[i as int]);
        let ghost before = diagnostics@;
        let ghost kept_before = kept@;
        proof {
            reveal(vertex_slot);
        }
        match Vertex::from_yaml(&nodes[i]) {
            Ok(v) => {
                slots.push(Some(kept.len()));
                kept.push(v);
                assert(vertex_views(kept@) =~= vertex_views(kept_before).push(v@));
            },
            Err(_) => {
                slots.push(None);
                diagnostics.push(
                    Diagnostic::SchemaError { entity: EntityKind::Vertex, position: i },
                );
            },
        }
        assert(diagnostics@ =~= old(diagnostics)@ + vertex_diagnostics(next)) by {
            assert(before =~= old(diagnostics)@ + vertex_diagnostics(prefix));
        }
        i = i + 1;
    }
    assert(nodes@.subrange(0, nodes@.len() as int) =~= nodes@);
    assert(slots@ =~= vertex_slots(nodes@)) by {
            }
    (kept, slots)
}

/// The models of `nodes` that decode, in their order.
pub open spec fn kept_models(nodes: Seq<Node>) -> Seq<ModelView>
    decreases nodes.len(),
{
    if nodes.len() == 0 {
        Seq::empty()
    } else {
        let prev = kept_models(nodes.drop_last());
        if model_error(nodes.last()) is None {
            prev.push(node_model(nodes.last()))
        } else {
            prev
        }
    }
}

/// The diagnostics of the models of `nodes` that do not decode.
pub open spec fn model_diagnostics(nodes: Seq<Node>) -> Seq<Diagnostic>
    decreases nodes.len(),
{
    if nodes.len() == 0 {
        Seq::empty()
    } else {
        let prev = model_diagnostics(nodes.drop_last());
        if model_error(nodes.last()) is None {
            prev
        } else {
            prev.push(
                Diagnostic::SchemaError {
                    entity: EntityKind::Model,
                    position: (nodes.len() - 1) as usize,
                },
            )
        }
    }
}

/// Decodes the model records `nodes`: returns the models that decode and
/// appends a diagnostic for each one that does not.
pub fn decode_models(nodes: &Vec<Node>, diagnostics: &mut Vec<Diagnostic>) -> (r: Vec<Model>)
    ensures
        model_views(r@) == kept_models(nodes@),
        final(diagnostics)@ == old(diagnostics)@ + model_diagnostics(nodes@),
{
    let mut kept: Vec<Model> = Vec::new();
    let mut i: usize = 0;
    while i < nodes.len()
        invariant
            0 <= i <= nodes@.len(),
            model_views(kept@) == kept_models(nodes@.subrange(0, i as int)),
            diagnostics@ == old(diagnostics)@ + model_diagnostics(nodes@.subrange(0, i as int)),
        decreases nodes@.len() - i,
    {
        let ghost prefix = nodes@.subrange(0, i as int);
        let ghost next = nodes@.subrange(0, i + 1);
        assert(next.drop_last() =~= prefix);
        assert(next.last() == nodes@[i as int]);
        let ghost before = diagnostics@;
        let ghost kept_before = kept@;
        match Model::from_yaml(&nodes[i]) {
            Ok(m) => {
                kept.push(m);
                assert(model_views(kept@) =~= model_views(kept_before).push(m@));
            },
            Err(_) => {
                diagnostics.push(Diagnostic::SchemaError { entity: EntityKind::Model, position: i });
            },
        }
        assert(diagnostics@ =~= old(diagnostics)@ + model_diagnostics(next)) by {
            assert(before =~= old(diagnostics)@ + model_diagnostics(prefix));
        }
        i = i + 1;
    }
    assert(nodes@.subrange(0, nodes@.len() as int) =~= nodes@);
    kept
}

/// The views of a list of models.
pub open spec fn model_views(ms: Seq<Model>) -> Seq<ModelView> {
    ms.map_values(|m: Model| m@)
}

/// The views of a list of vertices.
pub open spec fn vertex_views(vs: Seq<Vertex>) -> Seq<VertexView> {
    vs.map_values(|v: Vertex| v@)
}

/// The records that a level document lists under `key`; none where the
/// key is absent or does not hold a sequence.
pub open spec fn entity_records(doc: Node, key: Seq<char>) -> Seq<Node> {
    match lookup(doc, key) {
        Some(Node::Sequence(v)) => v@,
        _ => Seq::empty(),
    }
}

/// Whether `key` is absent from a level document or holds a sequence.
pub open spec fn records_well_formed(doc: Node, key: Seq<char>) -> bool {
    match lookup(doc, key) {
        Some(Node::Sequence(_)) => true,
        Some(_) => false,
        None => true,
    }
}

/// Whether a level document is a mapping whose entity lists are sequences.
pub open spec fn level_well_formed(doc: Node) -> bool {
    &&& doc is Mapping
    &&& records_well_formed(doc, "vertices"@)
    &&& records_well_formed(doc, "lanes"@)
    &&& records_well_formed(doc, "walls"@)
    &&& records_well_formed(doc, "measurements"@)
    &&& records_well_formed(doc, "models"@)
    &&& lookup(doc, "elevation"@) is None || number_field(doc, "elevation"@) is Some
}

/// The height of a level above the site's origin, in meters: its
/// `elevation` where that is a number, else zero.
pub open spec fn level_elevation(doc: Node) -> Coord {
    match number_field(doc, "elevation"@) {
        Some(x) => x,
        None => Coord { bits: 0 },
    }
}

/// A level of the site: its vertices, the lanes, walls and measurements
/// between them, its models, its elevation, and the diagnostics of what its document held but could
/// not be loaded.
#[derive(Clone, Debug)]
pub struct Level {
    pub name: String,
    pub vertices: Vec<Vertex>,
    pub lanes: Vec<Edge>,
    pub walls: Vec<Edge>,
    pub measurements: Vec<Edge>,
    pub models: Vec<Model>,
    pub elevation: Coord,
    pub diagnostics: Vec<Diagnostic>,
}

/// What a level holds, over views.
pub struct LevelView {
    pub name: Seq<char>,
    pub vertices: Seq<VertexView>,
    pub lanes: Seq<Edge>,
    pub walls: Seq<Edge>,
    pub measurements: Seq<Edge>,
    pub models: Seq<ModelView>,
    pub elevation: Coord,
    pub diagnostics: Seq<Diagnostic>,
}

impl View for Level {
    type V = LevelView;

    open spec fn view(&self) -> LevelView {
        LevelView {
            name: self.name@,
            vertices: vertex_views(self.vertices@),
            lanes: self.lanes@,
            walls: self.walls@,
            measurements: self.measurements@,
            models: model_views(self.models@),
            elevation: self.elevation,
            diagnostics: self.diagnostics@,
        }
    }
}

/// Whether every edge of `edges` joins two of `nv` vertices.
pub open spec fn edges_in_bounds(edges: Seq<Edge>, nv: nat) -> bool {
    forall|i: int| 0 <= i < edges.len() ==> (#[trigger] edges[i]).start < nv && edges[i].end < nv
}

/// The diagnostic of a level document of the wrong shape, if it is one.
pub open spec fn structure_diagnostics(position: usize, doc: Node) -> Seq<Diagnostic> {
    if level_well_formed(doc) {
        Seq::empty()
    } else {
        seq![Diagnostic::SchemaError { entity: EntityKind::Level, position }]
    }
}

/// The level that the document `doc`, named `name` and at `position` in
/// its site, loads to. Lanes, walls and measurements name vertices by
/// their index among the document's vertex records; the level stores
/// them by their position in its own vertex list.
#[verifier::opaque]
pub open spec fn level_of(name: Seq<char>, position: usize, doc: Node) -> LevelView {
    level_from_records(
        name,
        entity_records(doc, "vertices"@),
        entity_records(doc, "lanes"@),
        entity_records(doc, "walls"@),
        entity_records(doc, "measurements"@),
        entity_records(doc, "models"@),
        level_elevation(doc),
        structure_diagnostics(position, doc),
    )
}

/// The level assembled from its entity records, after the diagnostics
/// `earlier` of its document's shape.
#[verifier::opaque]
pub open spec fn level_from_records(
    name: Seq<char>,
    records: Seq<Node>,
    lanes: Seq<Node>,
    walls: Seq<Node>,
    measurements: Seq<Node>,
    models: Seq<Node>,
    elevation: Coord,
    earlier: Seq<Diagnostic>,
) -> LevelView {
    let slots = vertex_slots(records);
    LevelView {
        name,
        vertices: kept_vertices(records),
        lanes: kept_edges(EntityKind::Lane, lanes, slots),
        walls: kept_edges(EntityKind::Wall, walls, slots),
        measurements: kept_edges(EntityKind::Measurement, measurements, slots),
        models: kept_models(models),
        elevation,
        diagnostics: earlier + vertex_diagnostics(records) + edge_diagnostics(
            EntityKind::Lane,
            lanes,
            slots,
        ) + edge_diagnostics(EntityKind::Wall, walls, slots) + edge_diagnostics(
            EntityKind::Measurement,
            measurements,
            slots,
        ) + model_diagnostics(models),
    }
}

/// The records of a level document under `key`: `Ok(None)` where the key
/// is absent, `Err(())` where it holds something else than a sequence.
fn entity_list<'a>(doc: &'a Node, key: &str) -> (r: Result<Option<&'a Vec<Node>>, ()>)
    ensures
        match r {
            Ok(Some(v)) => lookup(*doc, key@) == Some(Node::Sequence(*v)),
            Ok(None) => lookup(*doc, key@) is None,
            Err(_) => !records_well_formed(*doc, key@),
        },
{
    let k = key.to_owned();
    match doc.get(&k) {
        Some(Node::Sequence(v)) => Ok(Some(v)),
        Some(_) => Err(()),
        None => Ok(None),
    }
}

impl Level {
    /// Whether every lane, wall and measurement joins two of the level's
    /// vertices.
    pub open spec fn wf(&self) -> bool {
        let nv = self.vertices@.len();
        &&& edges_in_bounds(self.lanes@, nv)
        &&& edges_in_bounds(self.walls@, nv)
        &&& edges_in_bounds(self.measurements@, nv)
    }

    /// Loads the level document `doc`, named `name` and at `position` in
    /// its site. Entities that cannot be loaded are left out, each with a
    /// diagnostic; a document of the wrong shape gives one more.
    pub fn from_yaml(name: String, position: usize, doc: &Node) -> (r: Level)
        ensures
            r@ == level_of(name@, position, *doc),
            r.name@ == name@,
            r.wf(),
    {
        let empty: Vec<Node> = Vec::new();
        let v = entity_list(doc, "vertices");
        let l = entity_list(doc, "lanes");
        let w = entity_list(doc, "walls");
        let m = entity_list(doc, "measurements");
        let o = entity_list(doc, "models");
        let mut diagnostics: Vec<Diagnostic> = Vec::new();
        let is_mapping = match doc {
            Node::Mapping(_) => true,
            _ => false,
        };
        let elevation_entry = doc.get(&"elevation".to_owned());
        let elevation = match elevation_entry {
            Some(x) => x.as_number(),
            None => None,
        };
        let elevation_ok = elevation_entry.is_none() || elevation.is_some();
        if !is_mapping || v.is_err() || l.is_err() || w.is_err() || m.is_err() || o.is_err()
            || !elevation_ok {
            diagnostics.push(Diagnostic::SchemaError { entity: EntityKind::Level, position });
        }
        assert(diagnostics@ =~= structure_diagnostics(position, *doc));
        let vn: &Vec<Node> = match v {
            Ok(Some(x)) => x,
            _ => &empty,
        };
        let ln: &Vec<Node> = match l {
            Ok(Some(x)) => x,
            _ => &empty,
        };
        let wn: &Vec<Node> = match w {
            Ok(Some(x)) => x,
            _ => &empty,
        };
        let mn: &Vec<Node> = match m {
            Ok(Some(x)) => x,
            _ => &empty,
        };
        let on: &Vec<Node> = match o {
            Ok(Some(x)) => x,
            _ => &empty,
        };
        assert(on@ == entity_records(*doc, "models"@));
        assert(vn@ == entity_records(*doc, "vertices"@));
        assert(ln@ == entity_records(*doc, "lanes"@));
        assert(wn@ == entity_records(*doc, "walls"@));
        assert(mn@ == entity_records(*doc, "measurements"@));
        let elevation = match elevation {
            Some(x) => x,
            None => Coord::from_bits(0),
        };
        assert(elevation == level_elevation(*doc));
        proof {
            reveal(level_of);
        }
        Level::assemble(name, vn, ln, wn, mn, on, elevation, diagnostics)
    }

    /// Assembles a level from its entity records, after the diagnostics
    /// `diagnostics` already found.
    fn assemble(
        name: String,
        vn: &Vec<Node>,
        ln: &Vec<Node>,
        wn: &Vec<Node>,
        mn: &Vec<Node>,
        on: &Vec<Node>,
        elevation: Coord,
        diagnostics: Vec<Diagnostic>,
    ) -> (r: Level)
        ensures
            r@ == level_from_records(name@, vn@, ln@, wn@, mn@, on@, elevation, diagnostics@),
            r.name == name,
            r.wf(),
    {
        let ghost earlier = diagnostics@;
        let mut diagnostics = diagnostics;
        let (vertices, slots) = decode_vertices(vn, &mut diagnostics);
        let lanes = resolve_edges(EntityKind::Lane, ln, &slots, &mut diagnostics);
        let walls = resolve_edges(EntityKind::Wall, wn, &slots, &mut diagnostics);
        let measurements = resolve_edges(EntityKind::Measurement, mn, &slots, &mut diagnostics);
        let models = decode_models(on, &mut diagnostics);
        let n_records = vn.len();
        proof {
            assert(vn@.len() == n_records as int);
            lemma_level_edges_in_bounds(vn@, ln@, wn@, mn@);
        }
        let r = Level { name, vertices, lanes, walls, measurements, models, elevation, diagnostics };
        reveal(level_from_records);
        assert(r@.diagnostics =~= level_from_records(
            name@,
            vn@,
            ln@,
            wn@,
            mn@,
            on@,
            elevation,
            earlier,
        ).diagnostics);
        r
    }
}

/// A lane, wall or measurement record with an index that is negative or
/// not below the number of vertex records is left out of its level, and
/// exactly one dangling reference diagnostic is recorded for it, naming
/// its kind, its position and the first index out of range.
pub proof fn lemma_dangling_record_dropped(
    entity: EntityKind,
    before: Seq<Node>,
    record: Node,
    vertex_records: Seq<Node>,
)
    requires
        edge_indices(record) is Some,
        !in_bounds(edge_indices(record)->Some_0.0, vertex_records.len()) || !in_bounds(
            edge_indices(record)->Some_0.1,
            vertex_records.len(),
        ),
    ensures
        ({
            let slots = vertex_slots(vertex_records);
            let (s, e) = edge_indices(record)->Some_0;
            let index = if !in_bounds(s, vertex_records.len()) {
                s
            } else {
                e
            };
            &&& kept_edges(entity, before.push(record), slots) == kept_edges(entity, before, slots)
            &&& edge_diagnostics(entity, before.push(record), slots) == edge_diagnostics(
                entity,
                before,
                slots,
            ).push(
                Diagnostic::DanglingReferenceError {
                    entity,
                    position: before.len() as usize,
                    index,
                },
            )
        }),
{
    let all = before.push(record);
    assert(all.drop_last() =~= before);
}

/// A vertex record that does not decode is left out of its level, the
/// records before it keep their vertices, and exactly one schema
/// diagnostic, naming its position, is recorded for it.
pub proof fn lemma_malformed_vertex_dropped(before: Seq<Node>, record: Node)
    requires
        node_error(record) is Some,
    ensures
        kept_vertices(before.push(record)) == kept_vertices(before),
        vertex_diagnostics(before.push(record)) == vertex_diagnostics(before).push(
            Diagnostic::SchemaError { entity: EntityKind::Vertex, position: before.len() as usize },
        ),
{
    assert(before.push(record).drop_last() =~= before);
}

/// An edge keeps the vertices that its record names: each kept lane, wall
/// or measurement joins the level's vertices decoded from the records at
/// its two indices.
pub proof fn lemma_kept_edge_joins_named_vertices(
    entity: EntityKind,
    n: Node,
    position: int,
    vertex_records: Seq<Node>,
)
    requires
        vertex_records.len() <= usize::MAX,
        resolve_edge(entity, position, n, vertex_slots(vertex_records)) is Ok,
    ensures
        ({
            let edge = resolve_edge(entity, position, n, vertex_slots(vertex_records))->Ok_0;
            let (s, e) = edge_indices(n)->Some_0;
            let vertices = kept_vertices(vertex_records);
            &&& edge.start < vertices.len() && edge.end < vertices.len()
            &&& vertices[edge.start as int] == node_vertex(vertex_records[s as int])
            &&& vertices[edge.end as int] == node_vertex(vertex_records[e as int])
        }),
{
        let (s, e) = edge_indices(n)->Some_0;
    let slots = vertex_slots(vertex_records);
    assert(slots[s as int] is Some && slots[e as int] is Some);
    assert(slots[s as int] == vertex_slot(vertex_records, s as int));
    assert(slots[e as int] == vertex_slot(vertex_records, e as int));
    reveal(vertex_slot);
    lemma_slot_names_vertex(vertex_records, s as int);
    lemma_slot_names_vertex(vertex_records, e as int);
}

/// The vertex at the slot of a decoding record is the one it decodes to.
pub proof fn lemma_slot_names_vertex(records: Seq<Node>, k: int)
    requires
        records.len() <= usize::MAX,
        0 <= k < records.len(),
        node_error(records[k]) is None,
    ensures
        vertex_slot(records, k) is Some,
        (vertex_slot(records, k)->Some_0 as int) < kept_vertices(records).len(),
        kept_vertices(records)[vertex_slot(records, k)->Some_0 as int] == node_vertex(records[k]),
    decreases records.len(),
{
    reveal(vertex_slot);
    let pre = records.subrange(0, k);
    lemma_kept_vertices_len(pre);
    if k == records.len() - 1 {
        assert(records.drop_last() =~= pre);
    } else {
        lemma_slot_names_vertex(records.drop_last(), k);
        assert(records.drop_last().subrange(0, k) =~= pre);
        assert(records.drop_last()[k] == records[k]);
    }
}

} // verus!
