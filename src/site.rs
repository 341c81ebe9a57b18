use vstd::prelude::*;

use crate::level::{level_of, Diagnostic, Level, LevelView};
use crate::node::{lookup, Node};

verus! {

/// The document is not a mapping with a mapping of levels under `levels`.
#[derive(Clone, Copy, Debug, PartialEq, Eq, Structural)]
pub struct DocumentError;

/// No level of the site has the name that was asked for.
#[derive(Clone, Copy, Debug, PartialEq, Eq, Structural)]
pub struct NotFoundError;

/// A loaded site: its levels, in the order of the document, the
/// document's lifts, which connect levels and are kept as they were read,
/// and the diagnostics of levels left out for repeating a name.
#[derive(Debug)]
pub struct SiteMap {
    pub levels: Vec<Level>,
    pub lifts: Option<Node>,
    pub diagnostics: Vec<Diagnostic>,
}

/// The views of a list of levels.
pub open spec fn level_views(levels: Seq<Level>) -> Seq<LevelView> {
    levels.map_values(|l: Level| l@)
}

/// The entries of the levels mapping of a document, if it has one.
pub open spec fn level_entries(doc: Node) -> Option<Seq<(String, Node)>> {
    match lookup(doc, "levels"@) {
        Some(Node::Mapping(entries)) => Some(entries@),
        _ => None,
    }
}

/// Whether some entry of `entries` is under `name`.
pub open spec fn name_seen(entries: Seq<(String, Node)>, name: Seq<char>) -> bool {
    exists|i: int| 0 <= i < entries.len() && (#[trigger] entries[i]).0@ == name
}

/// The levels of the entries of a levels mapping, each loaded on its own;
/// an entry whose name an earlier entry has is left out.
pub open spec fn site_levels(entries: Seq<(String, Node)>) -> Seq<LevelView>
    decreases entries.len(),
{
    if entries.len() == 0 {
        Seq::empty()
    } else {
        let prev = site_levels(entries.drop_last());
        let (name, doc) = entries.last();
        if name_seen(entries.drop_last(), name@) {
            prev
        } else {
            prev.push(level_of(name@, (entries.len() - 1) as usize, doc))
        }
    }
}

/// A diagnostic for each entry of a levels mapping whose name an earlier
/// entry has, naming its position.
pub open spec fn duplicate_diagnostics(entries: Seq<(String, Node)>) -> Seq<Diagnostic>
    decreases entries.len(),
{
    if entries.len() == 0 {
        Seq::empty()
    } else {
        let prev = duplicate_diagnostics(entries.drop_last());
        if name_seen(entries.drop_last(), entries.last().0@) {
            prev.push(Diagnostic::DuplicateLevelError { position: (entries.len() - 1) as usize })
        } else {
            prev
        }
    }
}

/// The levels that a document loads to, or `None` where the document has
/// no mapping of levels.
pub open spec fn site_of(doc: Node) -> Option<Seq<LevelView>> {
    match level_entries(doc) {
        Some(entries) => Some(site_levels(entries)),
        None => None,
    }
}

/// Whether the levels `levels` have distinct names.
pub open spec fn distinct_names(levels: Seq<Level>) -> bool {
    forall|a: int, b: int|
        0 <= a < b < levels.len() ==> (#[trigger] levels[a]).name@ != (#[trigger] levels[b]).name@
}

/// Every name seen in the entries before the last is seen in all of them.
pub proof fn lemma_names_grow(pre: Seq<(String, Node)>, next: Seq<(String, Node)>, levels: Seq<Level>)
    requires
        next.len() > 0,
        next.drop_last() == pre,
        forall|j: int| 0 <= j < levels.len() ==> name_seen(pre, (#[trigger] levels[j]).name@),
    ensures
        forall|j: int| 0 <= j < levels.len() ==> name_seen(next, (#[trigger] levels[j]).name@),
{
    assert forall|j: int| 0 <= j < levels.len() implies name_seen(next, (#[trigger] levels[j]).name@) by {
        assert(name_seen(pre, levels[j].name@));
        let w = choose|w: int| 0 <= w < pre.len() && (#[trigger] pre[w]).0@ == levels[j].name@;
        assert(next[w] == pre[w]);
    }
}

/// A level under a name that no earlier entry has keeps the names of the
/// loaded levels distinct.
pub proof fn lemma_names_step(
    pre: Seq<(String, Node)>,
    next: Seq<(String, Node)>,
    levels: Seq<Level>,
    level: Level,
)
    requires
        next.len() > 0,
        next.drop_last() == pre,
        !name_seen(pre, next.last().0@),
        level.name@ == next.last().0@,
        distinct_names(levels),
        forall|j: int| 0 <= j < levels.len() ==> name_seen(pre, (#[trigger] levels[j]).name@),
    ensures
        distinct_names(levels.push(level)),
        forall|j: int|
            0 <= j < levels.len() + 1 ==> name_seen(next, (#[trigger] levels.push(level)[j]).name@),
{
    let all = levels.push(level);
    lemma_names_grow(pre, next, levels);
    assert forall|a: int, b: int| 0 <= a < b < all.len() implies (#[trigger] all[a]).name@ != (
    #[trigger] all[b]).name@ by {
        assert(all[a] == levels[a]);
        if b == levels.len() {
            assert(name_seen(pre, levels[a].name@));
        } else {
            assert(all[b] == levels[b]);
        }
    }
    assert forall|j: int| 0 <= j < all.len() implies name_seen(next, (#[trigger] all[j]).name@) by {
        if j < levels.len() {
            assert(all[j] == levels[j]);
        } else {
            assert(next[next.len() - 1].0@ == all[j].name@);
        }
    }
}

/// Whether an entry of `entries` before position `i` is under `name`.
fn seen_before(entries: &Vec<(String, Node)>, i: usize, name: &String) -> (r: bool)
    requires
        i <= entries@.len(),
    ensures
        r == name_seen(entries@.subrange(0, i as int), name@),
{
    let ghost pre = entries@.subrange(0, i as int);
    let mut j: usize = 0;
    while j < i
        invariant
            0 <= j <= i <= entries@.len(),
            pre == entries@.subrange(0, i as int),
            forall|k: int| 0 <= k < j ==> (#[trigger] entries@[k]).0@ != name@,
        decreases i - j,
    {
        if entries[j].0 == *name {
            assert(pre[j as int] == entries@[j as int]);
            return true;
        }
        j = j + 1;
    }
    assert forall|k: int| 0 <= k < pre.len() implies (#[trigger] pre[k]).0@ != name@ by {
        assert(pre[k] == entries@[k]);
    }
    false
}

/// Whether some level of `levels` is named `name`.
pub open spec fn has_level(levels: Seq<Level>, name: Seq<char>) -> bool {
    exists|i: int| 0 <= i < levels.len() && (#[trigger] levels[i]).name@ == name
}

impl SiteMap {
    /// Whether every level of the site is well formed.
    pub open spec fn wf(&self) -> bool {
        &&& forall|i: int| 0 <= i < self.levels@.len() ==> (#[trigger] self.levels@[i]).wf()
        &&& distinct_names(self.levels@)
    }

    /// Loads a whole document. A level that cannot be loaded in part
    /// records diagnostics and leaves the other levels untouched; a level
    /// whose name an earlier one has is left out, with a diagnostic; only
    /// a document without a mapping of levels fails.
    pub fn load(doc: Node) -> (r: Result<SiteMap, DocumentError>)
        ensures
            match r {
                Ok(site) => site_of(doc) == Some(level_views(site.levels@)) && site.wf()
                    && site.lifts == lookup(doc, "lifts"@) && site.diagnostics@
                    == duplicate_diagnostics(level_entries(doc)->Some_0),
                Err(_) => site_of(doc) is None,
            },
    {
        let (levels, diagnostics) = match SiteMap::load_levels(&doc) {
            Some(loaded) => loaded,
            None => return Err(DocumentError),
        };
        let lifts = doc.take(&"lifts".to_owned());
        Ok(SiteMap { levels, lifts, diagnostics })
    }

    /// Loads each level of a document, with the diagnostics of repeated
    /// names, or `None` where it has no mapping of levels.
    fn load_levels(doc: &Node) -> (r: Option<(Vec<Level>, Vec<Diagnostic>)>)
        ensures
            match r {
                Some((levels, diagnostics)) => site_of(*doc) == Some(level_views(levels@))
                    && diagnostics@ == duplicate_diagnostics(level_entries(*doc)->Some_0)
                    && (forall|i: int| 0 <= i < levels@.len() ==> (#[trigger] levels@[i]).wf())
                    && distinct_names(levels@),
                None => site_of(*doc) is None,
            },
    {
        let key = "levels".to_owned();
        let entries = match doc.get(&key) {
            Some(Node::Mapping(entries)) => entries,
            _ => return None,
        };
        let ghost es = entries@;
        assert(level_entries(*doc) == Some(es));
        let mut levels: Vec<Level> = Vec::new();
        let mut diagnostics: Vec<Diagnostic> = Vec::new();
        let mut i: usize = 0;
        while i < entries.len()
            invariant
                0 <= i <= es.len(),
                es == entries@,
                level_views(levels@) == site_levels(es.subrange(0, i as int)),
                diagnostics@ == duplicate_diagnostics(es.subrange(0, i as int)),
                forall|j: int| 0 <= j < levels@.len() ==> (#[trigger] levels@[j]).wf(),
                forall|j: int|
                    0 <= j < levels@.len() ==> name_seen(
                        es.subrange(0, i as int),
                        (#[trigger] levels@[j]).name@,
                    ),
                distinct_names(levels@),
            decreases es.len() - i,
        {
            let ghost pre = es.subrange(0, i as int);
            let ghost next = es.subrange(0, i + 1);
            assert(next.drop_last() =~= pre);
            assert(next.last() == es[i as int]);
            let ghost old_levels = levels@;
            proof {
                lemma_names_grow(pre, next, old_levels);
            }
            if seen_before(entries, i, &entries[i].0) {
                diagnostics.push(Diagnostic::DuplicateLevelError { position: i });
                assert(diagnostics@ =~= duplicate_diagnostics(next));
            } else {
                let level = Level::from_yaml(entries[i].0.clone(), i, &entries[i].1);
                proof {
                    lemma_names_step(pre, next, old_levels, level);
                }
                levels.push(level);
                assert(levels@ == old_levels.push(level));
                assert(level_views(levels@) =~= level_views(old_levels).push(level@));
            }
            i = i + 1;
        }
        assert(es.subrange(0, es.len() as int) =~= es);
        Some((levels, diagnostics))
    }

    /// The first level named `name`.
    pub fn level(&self, name: &String) -> (r: Result<&Level, NotFoundError>)
        ensures
            r is Err <==> !has_level(self.levels@, name@),
            match r {
                Ok(l) => exists|i: int|
                    0 <= i < self.levels@.len() && self.levels@[i] == *l && l.name@ == name@
                        && !has_level(self.levels@.subrange(0, i), name@),
                Err(_) => !has_level(self.levels@, name@),
            },
    {
        let mut i: usize = 0;
        while i < self.levels.len()
            invariant
                0 <= i <= self.levels@.len(),
                !has_level(self.levels@.subrange(0, i as int), name@),
            decreases self.levels@.len() - i,
        {
            if self.levels[i].name == *name {
                return Ok(&self.levels[i]);
            }
            assert(!has_level(self.levels@.subrange(0, i + 1), name@)) by {
                let s = self.levels@.subrange(0, i + 1);
                assert forall|j: int| 0 <= j < s.len() implies (#[trigger] s[j]).name@ != name@ by {
                    if j < i {
                        assert(s[j] == self.levels@.subrange(0, i as int)[j]);
                    }
                }
            }
            i = i + 1;
        }
        assert(self.levels@.subrange(0, self.levels@.len() as int) =~= self.levels@);
        Err(NotFoundError)
    }
}

/// Two levels under distinct names load each from its own document
/// alone: whatever one of them holds, malformed or not, the other loads
/// as it would by itself, and no diagnostic of the site is recorded.
pub proof fn lemma_two_levels_load_independently(entries: Seq<(String, Node)>)
    requires
        entries.len() == 2,
        entries[0].0@ != entries[1].0@,
    ensures
        site_levels(entries) == seq![
            level_of(entries[0].0@, 0, entries[0].1),
            level_of(entries[1].0@, 1, entries[1].1),
        ],
        duplicate_diagnostics(entries) == Seq::<Diagnostic>::empty(),
{
    let first = entries.drop_last();
    let none = first.drop_last();
    assert(none.len() == 0);
    assert(site_levels(none) == Seq::<LevelView>::empty());
    assert(duplicate_diagnostics(none) == Seq::<Diagnostic>::empty());
    assert(!name_seen(none, first.last().0@));
    assert(first.last() == entries[0]);
    assert(site_levels(first) == seq![level_of(entries[0].0@, 0, entries[0].1)]) by {
        assert(Seq::<LevelView>::empty().push(level_of(entries[0].0@, 0, entries[0].1))
            =~= seq![level_of(entries[0].0@, 0, entries[0].1)]);
    }
    assert(duplicate_diagnostics(first) == Seq::<Diagnostic>::empty());
    assert(!name_seen(first, entries.last().0@)) by {
        assert(first[0] == entries[0]);
    }
    assert(entries.last() == entries[1]);
    assert(site_levels(entries) =~= seq![
        level_of(entries[0].0@, 0, entries[0].1),
        level_of(entries[1].0@, 1, entries[1].1),
    ]);
}

} // verus!
