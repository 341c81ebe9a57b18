use vstd::prelude::*;

use crate::level::{EntityKind, Edge, Level, LevelView};
use crate::model::{Model, ModelView};
use crate::site::{level_views, SiteMap};
use crate::vertex::{Vertex, VertexView};

verus! {

/// A copy of one entity of a level, tagged with its kind, for the layers
/// that show and edit the site.
#[derive(Clone, Debug)]
pub enum Editable {
    Vertex(Vertex),
    Lane(Edge),
    Wall(Edge),
    Measurement(Edge),
    Model(Model),
}

/// What an editable holds, over views.
pub enum EditableView {
    Vertex(VertexView),
    Lane(Edge),
    Wall(Edge),
    Measurement(Edge),
    Model(ModelView),
}

impl View for Editable {
    type V = EditableView;

    open spec fn view(&self) -> EditableView {
        match self {
            Editable::Vertex(v) => EditableView::Vertex(v@),
            Editable::Lane(e) => EditableView::Lane(*e),
            Editable::Wall(e) => EditableView::Wall(*e),
            Editable::Measurement(e) => EditableView::Measurement(*e),
            Editable::Model(m) => EditableView::Model(m@),
        }
    }
}

/// The views of a list of editables.
pub open spec fn editable_views(es: Seq<Editable>) -> Seq<EditableView> {
    es.map_values(|e: Editable| e@)
}

/// The edges `edges`, in their order, as editables of `kind`.
pub open spec fn edge_editables(edges: Seq<Edge>, kind: EntityKind) -> Seq<EditableView> {
    edges.map_values(
        |e: Edge|
            match kind {
                EntityKind::Lane => EditableView::Lane(e),
                EntityKind::Wall => EditableView::Wall(e),
                _ => EditableView::Measurement(e),
            },
    )
}

/// The entities of `kind` of a level, in their order, as editables.
pub open spec fn level_editables(l: LevelView, kind: EntityKind) -> Seq<EditableView> {
    match kind {
        EntityKind::Vertex => l.vertices.map_values(|v: VertexView| EditableView::Vertex(v)),
        EntityKind::Lane => edge_editables(l.lanes, kind),
        EntityKind::Wall => edge_editables(l.walls, kind),
        EntityKind::Measurement => edge_editables(l.measurements, kind),
        EntityKind::Model => l.models.map_values(|m: ModelView| EditableView::Model(m)),
        EntityKind::Level => Seq::empty(),
    }
}

/// The entities of `kind` of all levels, level after level.
pub open spec fn site_editables(levels: Seq<LevelView>, kind: EntityKind) -> Seq<EditableView>
    decreases levels.len(),
{
    if levels.len() == 0 {
        Seq::empty()
    } else {
        site_editables(levels.drop_last(), kind) + level_editables(levels.last(), kind)
    }
}

impl Editable {
    /// An editable copy of a vertex.
    pub fn of_vertex(v: &Vertex) -> (r: Editable)
        ensures
            r@ == EditableView::Vertex(v@),
    {
        Editable::Vertex(
            Vertex {
                x_raw: v.x_raw,
                y_raw: v.y_raw,
                x_meters: v.x_meters,
                y_meters: v.y_meters,
                name: v.name.clone(),
                properties: v.properties.copy(),
            },
        )
    }

    /// An editable copy of a model.
    pub fn of_model(m: &Model) -> (r: Editable)
        ensures
            r@ == EditableView::Model(m@),
    {
        Editable::Model(
            Model {
                name: m.name.clone(),
                model_name: m.model_name.clone(),
                x_raw: m.x_raw,
                y_raw: m.y_raw,
                x_meters: m.x_meters,
                y_meters: m.y_meters,
                yaw: m.yaw,
            },
        )
    }

    /// The kind of entity held.
    pub fn kind(&self) -> (r: EntityKind)
        ensures
            r == match self@ {
                EditableView::Vertex(_) => EntityKind::Vertex,
                EditableView::Lane(_) => EntityKind::Lane,
                EditableView::Wall(_) => EntityKind::Wall,
                EditableView::Measurement(_) => EntityKind::Measurement,
                EditableView::Model(_) => EntityKind::Model,
            },
    {
        match self {
            Editable::Vertex(_) => EntityKind::Vertex,
            Editable::Lane(_) => EntityKind::Lane,
            Editable::Wall(_) => EntityKind::Wall,
            Editable::Measurement(_) => EntityKind::Measurement,
            Editable::Model(_) => EntityKind::Model,
        }
    }
}

/// Appends to `out` the edges of `edges` tagged as `kind`.
fn push_edges(edges: &Vec<Edge>, kind: EntityKind, out: &mut Vec<Editable>)
    requires
        kind == EntityKind::Lane || kind == EntityKind::Wall || kind == EntityKind::Measurement,
    ensures
        editable_views(final(out)@) == editable_views(old(out)@) + edge_editables(edges@, kind),
{
    let ghost start = editable_views(old(out)@);
    let ghost all = edge_editables(edges@, kind);
    let mut i: usize = 0;
    while i < edges.len()
        invariant
            0 <= i <= edges@.len(),
            all.len() == edges@.len(),
            forall|j: int| 0 <= j < edges@.len() ==> #[trigger] all[j] == match kind {
                EntityKind::Lane => EditableView::Lane(edges@[j]),
                EntityKind::Wall => EditableView::Wall(edges@[j]),
                _ => EditableView::Measurement(edges@[j]),
            },
            editable_views(out@) == start + all.subrange(0, i as int),
        decreases edges@.len() - i,
    {
        let e = edges[i];
        let item = match kind {
            EntityKind::Lane => Editable::Lane(e),
            EntityKind::Wall => Editable::Wall(e),
            _ => Editable::Measurement(e),
        };
        let ghost before = out@;
        out.push(item);
        assert(editable_views(out@) =~= editable_views(before).push(item@));
        assert(all.subrange(0, i + 1) =~= all.subrange(0, i as int).push(all[i as int]));
        assert(editable_views(out@) =~= start + all.subrange(0, i + 1));
        i = i + 1;
    }
    assert(all.subrange(0, edges@.len() as int) =~= all);
}

impl Level {
    /// Appends to `out` a copy of each entity of `kind`, in their order.
    pub fn push_editables(&self, kind: EntityKind, out: &mut Vec<Editable>)
        ensures
            editable_views(final(out)@) == editable_views(old(out)@) + level_editables(self@, kind),
    {
        let ghost start = editable_views(old(out)@);
        match kind {
            EntityKind::Vertex => {
                let ghost all = level_editables(self@, kind);
                let mut i: usize = 0;
                while i < self.vertices.len()
                    invariant
                        0 <= i <= self.vertices@.len(),
                        all == level_editables(self@, EntityKind::Vertex),
                        editable_views(out@) == start + all.subrange(0, i as int),
                    decreases self.vertices@.len() - i,
                {
                    let ghost before = out@;
                    let item = Editable::of_vertex(&self.vertices[i]);
                    out.push(item);
                    assert(editable_views(out@) =~= editable_views(before).push(item@));
                    assert(all.subrange(0, i + 1) =~= all.subrange(0, i as int).push(all[i as int]));
                    assert(editable_views(out@) =~= start + all.subrange(0, i + 1));
                    i = i + 1;
                }
                assert(all.subrange(0, self.vertices@.len() as int) =~= all);
            },
            EntityKind::Model => {
                let ghost all = level_editables(self@, kind);
                let mut i: usize = 0;
                while i < self.models.len()
                    invariant
                        0 <= i <= self.models@.len(),
                        all == level_editables(self@, EntityKind::Model),
                        editable_views(out@) == start + all.subrange(0, i as int),
                    decreases self.models@.len() - i,
                {
                    let ghost before = out@;
                    let item = Editable::of_model(&self.models[i]);
                    out.push(item);
                    assert(editable_views(out@) =~= editable_views(before).push(item@));
                    assert(all.subrange(0, i + 1) =~= all.subrange(0, i as int).push(all[i as int]));
                    assert(editable_views(out@) =~= start + all.subrange(0, i + 1));
                    i = i + 1;
                }
                assert(all.subrange(0, self.models@.len() as int) =~= all);
            },
            EntityKind::Lane => push_edges(&self.lanes, kind, out),
            EntityKind::Wall => push_edges(&self.walls, kind, out),
            EntityKind::Measurement => push_edges(&self.measurements, kind, out),
            EntityKind::Level => {
                assert(editable_views(out@) =~= start + level_editables(self@, kind));
            },
        }
    }

    /// A copy of each entity of `kind`, in their order.
    pub fn editables(&self, kind: EntityKind) -> (r: Vec<Editable>)
        ensures
            editable_views(r@) == level_editables(self@, kind),
    {
        let mut out: Vec<Editable> = Vec::new();
        self.push_editables(kind, &mut out);
        assert(editable_views(out@) =~= level_editables(self@, kind));
        out
    }
}

impl SiteMap {
    /// A copy of each entity of `kind` of the whole site, level after level.
    pub fn editables(&self, kind: EntityKind) -> (r: Vec<Editable>)
        ensures
            editable_views(r@) == site_editables(level_views(self.levels@), kind),
    {
        let mut out: Vec<Editable> = Vec::new();
        let mut i: usize = 0;
        while i < self.levels.len()
            invariant
                0 <= i <= self.levels@.len(),
                editable_views(out@) == site_editables(
                    level_views(self.levels@.subrange(0, i as int)),
                    kind,
                ),
            decreases self.levels@.len() - i,
        {
            self.levels[i].push_editables(kind, &mut out);
            assert(level_views(self.levels@.subrange(0, i + 1)).drop_last() =~= level_views(
                self.levels@.subrange(0, i as int),
            ));
            i = i + 1;
        }
        assert(self.levels@.subrange(0, self.levels@.len() as int) =~= self.levels@);
        out
    }
}

} // verus!
