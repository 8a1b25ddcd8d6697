//! Declared and captured markers, the marker index derived from the entry
//! sequence, and the selection state the navigation keys drive.

use vstd::prelude::*;

use crate::entry::{entries_view, BuildEntry};
use crate::error::Error;
use crate::range::ByteRange;
use crate::rule::{Rule, RuleStore};
use crate::style::TextStyle;
use crate::tag::{classify_tags, first_marker_model, BuildTagKind};

verus! {

/// The text span a declared marker matched on an entry's message.
#[derive(Clone, Debug, PartialEq)]
pub struct CapturedMarker {
    /// The capture's byte range within the message.
    pub range: ByteRange,
    /// The captured text.
    pub text: Vec<u8>,
}

/// Mathematical view of a [`CapturedMarker`].
pub ghost struct CaptureModel {
    pub range: ByteRange,
    pub text: Seq<u8>,
}

impl View for CapturedMarker {
    type V = CaptureModel;

    open spec fn view(&self) -> CaptureModel {
        CaptureModel { range: self.range, text: self.text@ }
    }
}

impl CapturedMarker {
    /// The capture starting at `start` with the given text.
    pub fn new(start: usize, capture: Vec<u8>) -> (r: Self)
        requires
            start + capture@.len() <= usize::MAX,
        ensures
            r@ == (CaptureModel {
                range: ByteRange { start, end: (start + capture@.len()) as usize },
                text: capture@,
            }),
    {
        let end = start + capture.len();
        CapturedMarker { range: ByteRange { start, end }, text: capture }
    }

    /// A deep copy.
    pub fn duplicate(&self) -> (r: Self)
        ensures
            r@ == self@,
    {
        CapturedMarker {
            range: self.range,
            text: crate::bytes::clone_bytes(&self.text),
        }
    }
}

/// A rule-supplied marker definition: the tag kind it yields, the pattern
/// that finds its text in a line, and the style it is displayed in.
#[derive(Clone, Debug, PartialEq)]
pub struct DeclaredMarker {
    /// The tag kind.
    pub tag: BuildTagKind,
    /// The regular-expression pattern used to capture text.
    pub pattern: Vec<u8>,
    /// The style applied to the marker.
    pub style: TextStyle,
}

/// Mathematical view of a [`DeclaredMarker`].
pub ghost struct DeclModel {
    pub tag: BuildTagKind,
    pub pattern: Seq<u8>,
    pub style: TextStyle,
}

impl View for DeclaredMarker {
    type V = DeclModel;

    open spec fn view(&self) -> DeclModel {
        DeclModel { tag: self.tag, pattern: self.pattern@, style: self.style }
    }
}

impl DeclaredMarker {
    /// Build a declared marker from its parts.
    pub fn new(tag: BuildTagKind, pattern: Vec<u8>, style: TextStyle) -> (r: Self)
        ensures
            r@ == (DeclModel { tag, pattern: pattern@, style }),
    {
        DeclaredMarker { tag, pattern, style }
    }

    /// A deep copy.
    pub fn duplicate(&self) -> (r: Self)
        ensures
            r@ == self@,
    {
        DeclaredMarker {
            tag: self.tag,
            pattern: crate::bytes::clone_bytes(&self.pattern),
            style: self.style,
        }
    }
}

/// A marker as referenced from an entry: an optional capture and the
/// declaration it came from.
#[derive(Clone, Debug, PartialEq)]
pub struct MarkerRef {
    pub captured: Option<CapturedMarker>,
    pub declared: DeclaredMarker,
}

/// Mathematical view of a [`MarkerRef`].
pub ghost struct MarkerRefModel {
    pub captured: Option<CaptureModel>,
    pub declared: DeclModel,
}

impl View for MarkerRef {
    type V = MarkerRefModel;

    open spec fn view(&self) -> MarkerRefModel {
        MarkerRefModel {
            captured: match self.captured {
                Some(c) => Some(c@),
                None => None,
            },
            declared: self.declared@,
        }
    }
}

impl MarkerRef {
    /// Build a marker reference from a capture and a declaration.
    pub fn new(capture: Option<CapturedMarker>, declared: DeclaredMarker) -> (r: Self)
        ensures
            r.captured == capture,
            r.declared == declared,
    {
        MarkerRef { captured: capture, declared }
    }

    /// Build a marker reference for a kind the store knows.
    pub fn known(store: &RuleStore, kind: BuildTagKind, capture: Option<CapturedMarker>) -> (r:
        Self)
        requires
            known_marker_spec(crate::rule::rules_view(store.rules@), kind) is Some,
        ensures
            r@.declared == known_marker_spec(crate::rule::rules_view(store.rules@), kind)->Some_0,
            r@.captured == match capture {
                Some(c) => Some(c@),
                None => None::<CaptureModel>,
            },
    {
        let d = must_know_marker(store, kind);
        MarkerRef { captured: capture, declared: d }
    }

    /// The declared kind of the marker.
    pub fn kind(&self) -> (r: BuildTagKind)
        ensures
            r == self@.declared.tag,
    {
        self.declared.tag
    }

    /// The capture, if the pattern matched.
    pub fn captured(&self) -> (r: Option<&CapturedMarker>)
        ensures
            match r {
                Some(c) => self@.captured == Some(c@),
                None => self@.captured is None,
            },
    {
        self.captured.as_ref()
    }

    /// The declaration the marker came from.
    pub fn declared(&self) -> (r: &DeclaredMarker)
        ensures
            r@ == self@.declared,
    {
        &self.declared
    }

    /// A deep copy.
    pub fn duplicate(&self) -> (r: Self)
        ensures
            r@ == self@,
    {
        MarkerRef {
            captured: match &self.captured {
                Some(c) => Some(c.duplicate()),
                None => None,
            },
            declared: self.declared.duplicate(),
        }
    }
}

/// The first declared marker of kind `k` over a list of rules, scanning
/// each rule's markers in order.
pub open spec fn known_marker_spec(
    rules: Seq<crate::rule::RuleModel>,
    k: BuildTagKind,
) -> Option<DeclModel>
    decreases rules.len(),
{
    if rules.len() == 0 {
        None
    } else if crate::tag::decl_index(rules[0].markers, k) >= 0 {
        Some(rules[0].markers[crate::tag::decl_index(rules[0].markers, k)])
    } else {
        known_marker_spec(rules.drop_first(), k)
    }
}

/// Find the declared marker of kind `k` in the store's rules, if any rule
/// declares one.
pub fn known_marker(store: &RuleStore, k: BuildTagKind) -> (r: Option<DeclaredMarker>)
    ensures
        match r {
            Some(d) => known_marker_spec(crate::rule::rules_view(store.rules@), k) == Some(d@),
            None => known_marker_spec(crate::rule::rules_view(store.rules@), k) is None,
        },
{
    let ghost rv = crate::rule::rules_view(store.rules@);
    let n = store.rules.len();
    proof {
        assert(rv.len() == store.rules@.len());
        assert(rv.skip(0) =~= rv);
    }
    let mut i: usize = 0;
    while i < n
        invariant
            0 <= i <= n == store.rules@.len(),
            rv == crate::rule::rules_view(store.rules@),
            rv.len() == n,
            known_marker_spec(rv, k) == known_marker_spec(rv.skip(i as int), k),
        decreases n - i,
    {
        let rule = &store.rules[i];
        let m = rule.markers.len();
        let mut j: usize = 0;
        while j < m
            invariant
                0 <= j <= m == rule.markers@.len(),
                0 <= i < n == store.rules@.len(),
                rule == &store.rules@[i as int],
                rv == crate::rule::rules_view(store.rules@),
                rv.len() == n,
                known_marker_spec(rv, k) == known_marker_spec(rv.skip(i as int), k),
                forall|x: int| 0 <= x < j ==> rule@.markers[x].tag != k,
            decreases m - j,
        {
            if rule.markers[j].tag == k {
                proof {
                    vstd::seq_lib::lemma_seq_skip_index(rv, i as int, 0);
                    assert(rv[i as int] == store.rules@[i as int]@);
                    assert(rule@.markers[j as int] == rule.markers@[j as int]@);
                    crate::tag::lemma_decl_index(rule@.markers, k);
                }
                return Some(rule.markers[j].duplicate());
            }
            j = j + 1;
        }
        proof {
            crate::tag::lemma_decl_index(rule@.markers, k);
            vstd::seq_lib::lemma_seq_skip_index(rv, i as int, 0);
            assert(rv[i as int] == store.rules@[i as int]@);
            assert(rv.skip(i as int).drop_first() =~= rv.skip(i + 1));
        }
        i = i + 1;
    }
    proof {
        assert(rv.skip(n as int).len() == 0);
    }
    None
}

/// Like [`known_marker`], for a kind the store is known to declare.
pub fn must_know_marker(store: &RuleStore, k: BuildTagKind) -> (r: DeclaredMarker)
    requires
        known_marker_spec(crate::rule::rules_view(store.rules@), k) is Some,
    ensures
        known_marker_spec(crate::rule::rules_view(store.rules@), k) == Some(r@),
{
    match known_marker(store, k) {
        Some(d) => d,
        None => {
            proof {
                assert(false);
            }
            DeclaredMarker { tag: k, pattern: Vec::new(), style: TextStyle::plain() }
        },
    }
}

/// The user's current focus: a marker, the entry that marker stands on,
/// and an optional highlighted byte region inside that entry's message.
#[derive(Clone, Copy, Debug, PartialEq, Default)]
pub struct MarkerSelection {
    pub marker_id: usize,
    pub entry_id: usize,
    pub region: Option<ByteRange>,
}

impl MarkerSelection {
    /// Build a selection from its parts.
    pub fn new(marker_id: usize, entry_id: usize, region: Option<ByteRange>) -> (r: Self)
        ensures
            r == (MarkerSelection { marker_id, entry_id, region }),
    {
        MarkerSelection { marker_id, entry_id, region }
    }
}

/// The marker index is strictly increasing in entry id.
pub open spec fn midx_sorted(tags: Seq<(usize, BuildTagKind)>) -> bool {
    forall|i: int, j: int| 0 <= i < j < tags.len() ==> (#[trigger] tags[i]).0 < (#[trigger] tags[j]).0
}

/// `j` names the block that contains entry `e`: the `j`th marker stands at
/// or before `e` and the next marker, if any, stands after it.
pub open spec fn is_block_idx(tags: Seq<(usize, BuildTagKind)>, e: int, j: int) -> bool {
    0 <= j < tags.len() && tags[j].0 <= e && (j + 1 < tags.len() ==> e < tags[j + 1].0)
}

/// In a sorted marker index, at most one marker starts the block of `e`.
pub proof fn lemma_block_idx_unique(tags: Seq<(usize, BuildTagKind)>, e: int, j1: int, j2: int)
    requires
        midx_sorted(tags),
        is_block_idx(tags, e, j1),
        is_block_idx(tags, e, j2),
    ensures
        j1 == j2,
{
    if j1 < j2 {
        assert(tags[j1 + 1].0 <= tags[j2].0 || j1 + 1 == j2);
    }
    if j2 < j1 {
        assert(tags[j2 + 1].0 <= tags[j1].0 || j2 + 1 == j1);
    }
}

/// Binary search for the marker whose block contains entry `e`.
pub fn find_block_index(tags: &Vec<(usize, BuildTagKind)>, e: usize) -> (r: Option<usize>)
    requires
        midx_sorted(tags@),
    ensures
        match r {
            Some(j) => is_block_idx(tags@, e as int, j as int),
            None => tags@.len() == 0 || e < tags@[0].0,
        },
{
    if tags.len() == 0 {
        return None;
    }
    if e < tags[0].0 {
        return None;
    }
    let mut lo: usize = 0;
    let mut hi: usize = tags.len();
    while hi - lo > 1
        invariant
            0 <= lo < hi <= tags@.len(),
            tags@[lo as int].0 <= e,
            hi < tags@.len() ==> e < tags@[hi as int].0,
            midx_sorted(tags@),
        decreases hi - lo,
    {
        let mid = lo + (hi - lo) / 2;
        if tags[mid].0 <= e {
            lo = mid;
        } else {
            hi = mid;
        }
    }
    Some(lo)
}

/// The list of markers extracted from the entries' tags, and the current
/// selection.
#[derive(Clone, Debug, PartialEq)]
pub struct Markers {
    /// `(entry_id, marker_kind)` pairs in entry order.
    pub tags: Vec<(usize, BuildTagKind)>,
    /// The currently selected marker, an index into `tags`.
    pub selection: Option<MarkerSelection>,
}

/// The marker index of an entry sequence: one `(entry_id, kind)` pair per
/// entry whose first marker-carrying tag has kind `kind`, in entry order.
pub open spec fn marker_index_spec(es: Seq<crate::entry::EntryModel>) -> Seq<(usize, BuildTagKind)>
    decreases es.len(),
{
    if es.len() == 0 {
        Seq::empty()
    } else {
        let rest = marker_index_spec(es.drop_last());
        match first_marker_model(es.last().tags) {
            Some(m) => rest.push((((es.len() - 1) as usize), m.declared.tag)),
            None => rest,
        }
    }
}

/// The whole-state transition of selecting the first marker: the marker
/// list is kept and the selection becomes marker zero's, when one exists.
pub open spec fn spec_select_first(m: Markers) -> Markers {
    Markers { selection: select_spec(m.tags@, 0, None), ..m }
}

/// Selecting marker `id`: clamped to the index, with the marker's entry;
/// no-op when there are no markers.
pub open spec fn select_spec(
    tags: Seq<(usize, BuildTagKind)>,
    id: int,
    region: Option<ByteRange>,
) -> Option<MarkerSelection> {
    if tags.len() == 0 {
        None
    } else {
        let i = if id < tags.len() - 1 {
            id
        } else {
            tags.len() - 1
        };
        Some(MarkerSelection { marker_id: i as usize, entry_id: tags[i].0, region: region })
    }
}

/// The selection one step back: the first marker when none or the first is
/// selected, else the previous one.
pub open spec fn previous_selection_spec(
    tags: Seq<(usize, BuildTagKind)>,
    sel: Option<MarkerSelection>,
) -> Option<MarkerSelection> {
    if tags.len() == 0 {
        None
    } else {
        let prev = match sel {
            Some(cur) => if cur.marker_id > 0 {
                cur.marker_id - 1
            } else {
                0
            },
            None => 0,
        };
        let entry = if prev < tags.len() {
            tags[prev].0
        } else {
            0
        };
        Some(MarkerSelection { marker_id: prev as usize, entry_id: entry, region: None })
    }
}

/// The selection one step forward, saturating at the last marker.
pub open spec fn next_selection_spec(
    tags: Seq<(usize, BuildTagKind)>,
    sel: Option<MarkerSelection>,
) -> Option<MarkerSelection> {
    if tags.len() == 0 {
        None
    } else {
        let next = match sel {
            Some(cur) => if cur.marker_id < tags.len() - 1 {
                cur.marker_id + 1
            } else {
                tags.len() - 1
            },
            None => 0,
        };
        Some(
            MarkerSelection {
                marker_id: next as usize,
                entry_id: tags[next as int].0,
                region: None,
            },
        )
    }
}

impl Markers {
    /// An empty marker list with no selection.
    pub fn new() -> (r: Self)
        ensures
            r.tags@ == Seq::<(usize, BuildTagKind)>::empty(),
            r.selection is None,
    {
        let r = Markers { tags: Vec::new(), selection: None };
        proof {
            assert(r.tags@ =~= Seq::<(usize, BuildTagKind)>::empty());
        }
        r
    }

    /// The list of `(entry_id, kind)` pairs.
    pub fn tags(&self) -> (r: &Vec<(usize, BuildTagKind)>)
        ensures
            r == &self.tags,
    {
        &self.tags
    }

    /// The list of `(entry_id, kind)` pairs, mutably.
    pub fn tags_mut(&mut self) -> (r: &mut Vec<(usize, BuildTagKind)>)
        ensures
            *r == old(self).tags,
            final(self).tags == *final(r),
            final(self).selection == old(self).selection,
    {
        &mut self.tags
    }

    /// The current selection.
    pub fn selection(&self) -> (r: Option<&MarkerSelection>)
        ensures
            match r {
                Some(s) => self.selection == Some(*s),
                None => self.selection is None,
            },
    {
        self.selection.as_ref()
    }

    /// The current selection, mutably.
    pub fn selection_mut(&mut self) -> (r: &mut Option<MarkerSelection>)
        ensures
            *r == old(self).selection,
            final(self).selection == *final(r),
            final(self).tags == old(self).tags,
    {
        &mut self.selection
    }

    /// Replace the selection.
    pub fn set_selection(&mut self, s: Option<MarkerSelection>)
        ensures
            final(self).selection == s,
            final(self).tags == old(self).tags,
    {
        self.selection = s;
    }

    /// The entry id of the current selection, if any.
    pub fn selected_entry(&self) -> (r: Option<usize>)
        ensures
            match self.selection {
                Some(s) => r == Some(s.entry_id),
                None => r is None,
            },
    {
        match &self.selection {
            Some(s) => Some(s.entry_id),
            None => None,
        }
    }

    /// The marker kind of the current selection, when its marker id is in
    /// range.
    pub fn selected_kind(&self) -> (r: Option<BuildTagKind>)
        ensures
            match self.selection {
                Some(s) => if s.marker_id < self.tags@.len() {
                    r == Some(self.tags@[s.marker_id as int].1)
                } else {
                    r is None
                },
                None => r is None,
            },
    {
        match &self.selection {
            Some(s) => {
                if s.marker_id < self.tags.len() {
                    Some(self.tags[s.marker_id].1)
                } else {
                    None
                }
            },
            None => None,
        }
    }

    /// Classify one entry against the rule's declared markers, attaching a
    /// marker tag for every pattern that matches, in declaration order.
    pub fn prepare(entry: &mut BuildEntry, rule: &Rule) -> (r: Result<(), Error>)
        ensures
            r is Ok,
            final(entry)@.message == old(entry)@.message,
            final(entry)@.origin == old(entry)@.origin,
            final(entry)@.created_at == old(entry)@.created_at,
            final(entry)@.tags == classify_tags(
                old(entry)@.tags,
                rule@.markers,
                old(entry)@.message,
            ),
    {
        let n = rule.markers.len();
        let mut i: usize = 0;
        while i < n
            invariant
                0 <= i <= n == rule.markers@.len(),
                entry@.message == old(entry)@.message,
                entry@.origin == old(entry)@.origin,
                entry@.created_at == old(entry)@.created_at,
                entry@.tags == classify_tags(
                    old(entry)@.tags,
                    rule@.markers.take(i as int),
                    old(entry)@.message,
                ),
            decreases n - i,
        {
            let ghost before = entry@.tags;
            let m = &rule.markers[i];
            match crate::pattern::regex_find(&m.pattern, &entry.message) {
                Some((s, e)) => {
                    let text = crate::bytes::subvec(&entry.message, s, e);
                    let declared = m.duplicate();
                    let t = crate::tag::BuildTag {
                        kind: declared.tag,
                        marker: Some(
                            MarkerRef {
                                captured: Some(
                                    CapturedMarker { range: ByteRange { start: s, end: e }, text },
                                ),
                                declared,
                            },
                        ),
                        location: None,
                    };
                    proof {
                        assert(t@ == crate::tag::marker_tag_model(
                            rule@.markers[i as int],
                            s,
                            e,
                            entry@.message,
                        ));
                    }
                    entry.set_tag(t);
                },
                None => {},
            }
            proof {
                assert(rule@.markers.take(i + 1) =~= rule@.markers.take(i as int).push(
                    rule@.markers[i as int],
                ));
                crate::tag::lemma_classify_tags_push(
                    old(entry)@.tags,
                    rule@.markers.take(i as int),
                    rule@.markers[i as int],
                    old(entry)@.message,
                );
            }
            i = i + 1;
        }
        proof {
            assert(rule@.markers.take(n as int) =~= rule@.markers);
        }
        Ok(())
    }

    /// The `(entry_id, kind)` pair of marker `id`.
    pub fn entry_for_marker(&self, id: usize) -> (r: Option<&(usize, BuildTagKind)>)
        ensures
            id < self.tags@.len() ==> r == Some(&self.tags@[id as int]),
            id >= self.tags@.len() ==> r is None,
    {
        if id < self.tags.len() {
            Some(&self.tags[id])
        } else {
            None
        }
    }

    /// The `(entry_id, kind)` pair of marker `id`, mutably.
    pub fn entry_for_marker_mut(&mut self, id: usize) -> (r: Option<&mut (usize, BuildTagKind)>)
        ensures
            match r {
                Some(p) => id < old(self).tags@.len() && *p == old(self).tags@[id as int]
                    && final(self).tags@ == old(self).tags@.update(id as int, *final(p))
                    && final(self).selection == old(self).selection,
                None => id >= old(self).tags@.len() && *final(self) == *old(self),
            },
    {
        if id < self.tags.len() {
            Some(&mut self.tags[id])
        } else {
            None
        }
    }

    /// Select marker `id`, clamped to the marker list; no-op when there
    /// are no markers.
    pub fn select(&mut self, id: usize, text: Option<ByteRange>)
        ensures
            final(self).tags == old(self).tags,
            final(self).selection == select_spec(old(self).tags@, id as int, text),
    {
        if self.tags.is_empty() {
            self.selection = None;
        } else {
            let i = if id < self.tags.len() - 1 {
                id
            } else {
                self.tags.len() - 1
            };
            self.selection = Some(
                MarkerSelection { marker_id: i, entry_id: self.tags[i].0, region: text },
            );
        }
    }

    /// The block range around `entry_id`: the marker at or before it and
    /// the start of the next block, or a one-entry range after the last
    /// marker.
    pub fn block_range_at(&self, entry_id: usize) -> (r: Option<(usize, ByteRange)>)
        requires
            midx_sorted(self.tags@),
            forall|i: int| 0 <= i < self.tags@.len() ==> (#[trigger] self.tags@[i]).0 < usize::MAX,
        ensures
            match r {
                Some(p) => is_block_idx(self.tags@, entry_id as int, p.0 as int) && p.1.start
                    == self.tags@[p.0 as int].0 && p.1.end == if p.0 + 1 < self.tags@.len() {
                    self.tags@[p.0 as int + 1].0 as int
                } else {
                    self.tags@[p.0 as int].0 + 1
                },
                None => self.tags@.len() == 0 || entry_id < self.tags@[0].0,
            },
    {
        let n = self.tags.len();
        match find_block_index(&self.tags, entry_id) {
            Some(j) => {
                let start = self.tags[j].0;
                let end = if j < n - 1 {
                    self.tags[j + 1].0
                } else {
                    start + 1
                };
                Some((j, ByteRange { start, end }))
            },
            None => None,
        }
    }

    /// The block around `entry_id` as a value: its marker id, a marker
    /// reference built from the store's declaration of the kind (with no
    /// capture), its range, and no entries.  Nothing exactly when the
    /// entry has no block, or the store does not declare the kind of the
    /// marker whose block contains it.
    pub fn block_at(&self, store: &RuleStore, entry_id: usize) -> (r: Option<
        crate::block::MarkedBlock,
    >)
        requires
            midx_sorted(self.tags@),
            forall|i: int| 0 <= i < self.tags@.len() ==> (#[trigger] self.tags@[i]).0 < usize::MAX,
        ensures
            match r {
                Some(b) => is_block_idx(self.tags@, entry_id as int, b@.marker_id as int)
                    && b@.entry_range.start == self.tags@[b@.marker_id as int].0 && b@.marker.captured
                    is None && Some(b@.marker.declared) == known_marker_spec(
                    crate::rule::rules_view(store.rules@),
                    self.tags@[b@.marker_id as int].1,
                ) && b@.entries.len() == 0,
                None => self.tags@.len() == 0 || entry_id < self.tags@[0].0 || (
                crate::output::has_block(self.tags@, entry_id as int) && known_marker_spec(
                    crate::rule::rules_view(store.rules@),
                    self.tags@[crate::output::block_idx_of(self.tags@, entry_id as int)].1,
                ) is None),
            },
    {
        match self.block_range_at(entry_id) {
            Some((marker_id, range)) => {
                let kind = self.tags[marker_id].1;
                match known_marker(store, kind) {
                    Some(declared) => {
                        let marker = MarkerRef { captured: None, declared };
                        let b = crate::block::MarkedBlock {
                            marker_id,
                            marker,
                            entry_range: range,
                            entries: Vec::new(),
                        };
                        proof {
                            assert(b@.entries =~= Seq::<crate::entry::EntryModel>::empty());
                        }
                        Some(b)
                    },
                    None => {
                        proof {
                            assert(crate::output::has_block(self.tags@, entry_id as int));
                            lemma_block_idx_unique(
                                self.tags@,
                                entry_id as int,
                                marker_id as int,
                                crate::output::block_idx_of(self.tags@, entry_id as int),
                            );
                        }
                        None
                    },
                }
            },
            None => None,
        }
    }

    /// Clear the selection.
    pub fn unselect(&mut self)
        ensures
            final(self).selection is None,
            final(self).tags == old(self).tags,
    {
        self.selection = None;
    }

    /// The selection one step back, without changing the state.
    pub fn previous_selection(&self) -> (r: Option<MarkerSelection>)
        ensures
            r == previous_selection_spec(self.tags@, self.selection),
    {
        if self.tags.is_empty() {
            return None;
        }
        let prev: usize = match &self.selection {
            Some(cur) => if cur.marker_id > 0 {
                cur.marker_id - 1
            } else {
                0
            },
            None => 0,
        };
        let entry: usize = if prev < self.tags.len() {
            self.tags[prev].0
        } else {
            0
        };
        Some(MarkerSelection { marker_id: prev, entry_id: entry, region: None })
    }

    /// The selection one step forward, without changing the state.
    pub fn next_selection(&self) -> (r: Option<MarkerSelection>)
        ensures
            r == next_selection_spec(self.tags@, self.selection),
    {
        if self.tags.is_empty() {
            return None;
        }
        let next: usize = match &self.selection {
            Some(cur) => if cur.marker_id < self.tags.len() - 1 {
                cur.marker_id + 1
            } else {
                self.tags.len() - 1
            },
            None => 0,
        };
        let entry: usize = self.tags[next].0;
        Some(MarkerSelection { marker_id: next, entry_id: entry, region: None })
    }

    /// Move the selection one marker back, saturating at the first.
    pub fn select_previous(&mut self) -> (r: Option<&MarkerSelection>)
        ensures
            final(self).tags == old(self).tags,
            final(self).selection == previous_selection_spec(
                old(self).tags@,
                old(self).selection,
            ),
            match r {
                Some(s) => final(self).selection == Some(*s),
                None => final(self).selection is None,
            },
    {
        self.selection = self.previous_selection();
        self.selection.as_ref()
    }

    /// Move the selection one marker forward, saturating at the last.
    pub fn select_next(&mut self) -> (r: Option<&MarkerSelection>)
        ensures
            final(self).tags == old(self).tags,
            final(self).selection == next_selection_spec(old(self).tags@, old(self).selection),
            match r {
                Some(s) => final(self).selection == Some(*s),
                None => final(self).selection is None,
            },
    {
        self.selection = self.next_selection();
        self.selection.as_ref()
    }

    /// Select the first marker.
    pub fn select_first(&mut self) -> (r: Option<&MarkerSelection>)
        ensures
            final(self).tags == old(self).tags,
            final(self).selection == select_spec(old(self).tags@, 0, None),
            *final(self) == spec_select_first(*old(self)),
            match r {
                Some(s) => final(self).selection == Some(*s),
                None => final(self).selection is None,
            },
    {
        self.select(0, None);
        self.selection.as_ref()
    }

    /// Select the last marker.
    pub fn select_last(&mut self) -> (r: Option<&MarkerSelection>)
        ensures
            final(self).tags == old(self).tags,
            final(self).selection == select_spec(
                old(self).tags@,
                old(self).tags@.len() as int,
                None,
            ),
            match r {
                Some(s) => final(self).selection == Some(*s),
                None => final(self).selection is None,
            },
    {
        let n = self.tags.len();
        self.select(n, None);
        self.selection.as_ref()
    }

    /// Build the marker index of an entry sequence.
    pub fn from_entries(entries: &Vec<BuildEntry>) -> (r: Self)
        ensures
            r.tags@ == marker_index_spec(entries_view(entries@)),
            r.selection is None,
    {
        let ghost ev = entries_view(entries@);
        let mut tags: Vec<(usize, BuildTagKind)> = Vec::new();
        let n = entries.len();
        let mut i: usize = 0;
        while i < n
            invariant
                0 <= i <= n == entries@.len(),
                ev == entries_view(entries@),
                tags@ == marker_index_spec(ev.take(i as int)),
            decreases n - i,
        {
            proof {
                assert(ev.take(i + 1).drop_last() =~= ev.take(i as int));
                assert(ev.take(i + 1).last() == ev[i as int]);
            }
            match entries[i].first_marker() {
                Some(m) => {
                    let k = m.kind();
                    tags.push((i, k));
                },
                None => {},
            }
            i = i + 1;
        }
        proof {
            assert(ev.take(n as int) =~= ev);
        }
        Markers { tags, selection: None }
    }
}

impl Default for Markers {
    /// An empty marker list with no selection.
    fn default() -> (r: Self)
        ensures
            r.tags@ == Seq::<(usize, BuildTagKind)>::empty(),
            r.selection is None,
    {
        Markers::new()
    }
}

} // verus!
