//! The append-only output store and its preparation pipeline: entries come
//! in from the producers, are classified against the rule snapshot, turned
//! into display lines, and indexed into markers and diagnostic blocks.

use vstd::prelude::*;

use crate::block::MarkedBlock;
use crate::bytes::{starts_with, starts_with_spec, trim, trim_spec};
use crate::entry::{entries_view, BuildEntry, EntryModel};
use crate::error::Error;
use crate::event::BuildEvent;
use crate::location::{parse_location_spec, Location, LocationModel};
use crate::marker::{find_block_index, is_block_idx, marker_index_spec, midx_sorted, DeclModel,
    DeclaredMarker, MarkerSelection, Markers};
use crate::range::ByteRange;
use crate::rule::{Rule, RuleModel};
use crate::style::{LineModel, SpanModel, TextStyle};
use crate::tag::{classify_tags, first_marker_model, set_tag_spec, tag_index, BuildTag,
    BuildTagKind, TagModel};
use vstd::string::StringSliceAdditionalSpecFns;

verus! {

/// Mathematical view of a [`BuildOutput`].
pub ghost struct OutputModel {
    pub rule: RuleModel,
    pub entries: Seq<EntryModel>,
    pub warnings: Seq<usize>,
    pub notes: Seq<usize>,
    pub errors: Seq<usize>,
    pub events: Seq<BuildEvent>,
    pub remove_noise: bool,
    pub cursor: usize,
    pub prepared: Seq<LineModel>,
    pub markers_tags: Seq<(usize, BuildTagKind)>,
    pub selection: Option<MarkerSelection>,
}

/// An entry after classification: every declared marker of the rule was
/// run over its message, in declaration order.
pub open spec fn classify_entry(e: EntryModel, rule: RuleModel) -> EntryModel {
    EntryModel { tags: classify_tags(e.tags, rule.markers, e.message), ..e }
}

/// The entry sequence with every entry at position `c` or later classified.
pub open spec fn classified_entries(es: Seq<EntryModel>, c: int, rule: RuleModel) -> Seq<
    EntryModel,
> {
    Seq::new(es.len(), |i: int| if i >= c { classify_entry(es[i], rule) } else { es[i] })
}

/// Whether the entry carries a tag of kind `k`.
pub open spec fn has_kind(e: EntryModel, k: BuildTagKind) -> bool {
    tag_index(e.tags, k) >= 0
}

/// The ids in `[c, hi)` of entries that carry a tag of kind `k`, in order.
pub open spec fn ids_in_range(es: Seq<EntryModel>, c: int, hi: int, k: BuildTagKind) -> Seq<usize>
    decreases hi - c,
{
    if hi <= c {
        Seq::empty()
    } else {
        ids_in_range(es, c, hi - 1, k) + if has_kind(es[hi - 1], k) {
            seq![(hi - 1) as usize]
        } else {
            Seq::<usize>::empty()
        }
    }
}

/// The ids at `c` or later of entries that carry a tag of kind `k`.
pub open spec fn ids_with_kind(es: Seq<EntryModel>, c: int, k: BuildTagKind) -> Seq<usize> {
    ids_in_range(es, c, es.len() as int, k)
}

/// Length of the marker text captured on the entry, or zero when there is
/// no capture.
pub open spec fn cap_len(e: EntryModel) -> int {
    match first_marker_model(e.tags) {
        Some(m) => match m.captured {
            Some(cm) => cm.text.len() as int,
            None => 0,
        },
        None => 0,
    }
}

/// The widest captured marker text among entries `[lo, hi)`.
pub open spec fn batch_margin(es: Seq<EntryModel>, lo: int, hi: int) -> int
    decreases hi - lo,
{
    if hi <= lo {
        0
    } else {
        let rest = batch_margin(es, lo, hi - 1);
        let cl = cap_len(es[hi - 1]);
        if cl > rest {
            cl
        } else {
            rest
        }
    }
}

/// Size of the chunks the unprepared entries are split into: a fifth of
/// the total entry count, and at least one.
pub open spec fn chunk_size_spec(total: int) -> int {
    (if total > 5 {
        total
    } else {
        5
    }) / 5
}

/// First entry id of the chunk that entry `i` falls in.
pub open spec fn batch_lo(c: int, total: int, i: int) -> int {
    c + ((i - c) / chunk_size_spec(total)) * chunk_size_spec(total)
}

/// One past the last entry id of the chunk that entry `i` falls in.
pub open spec fn batch_hi(c: int, total: int, i: int) -> int {
    let h = batch_lo(c, total, i) + chunk_size_spec(total);
    if h > total {
        total
    } else {
        h
    }
}

/// The margin width used for entry `i`: the widest capture in its chunk.
pub open spec fn margin_for(es: Seq<EntryModel>, c: int, i: int) -> int {
    batch_margin(es, batch_lo(c, es.len() as int, i), batch_hi(c, es.len() as int, i))
}

/// The display line of a classified entry: the captured marker text in the
/// marker's style (or a dimmed blank margin of the chunk's width), one
/// space, then the message after the capture (or the whole message).
pub open spec fn display_line_spec(e: EntryModel, w: int) -> LineModel {
    let plain = TextStyle::plain_spec();
    match first_marker_model(e.tags) {
        Some(m) => match m.captured {
            Some(cm) => LineModel {
                spans: seq![
                    SpanModel { text: cm.text, style: m.declared.style },
                    SpanModel { text: seq![32u8], style: plain },
                    SpanModel {
                        text: if cm.range.end <= e.message.len() {
                            e.message.skip(cm.range.end as int)
                        } else {
                            Seq::<u8>::empty()
                        },
                        style: plain,
                    },
                ],
                style: plain,
            },
            None => blank_line_spec(e, w),
        },
        None => blank_line_spec(e, w),
    }
}

/// The display line of an entry with no captured marker.
pub open spec fn blank_line_spec(e: EntryModel, w: int) -> LineModel {
    LineModel {
        spans: seq![
            SpanModel {
                text: Seq::new(w as nat, |i: int| 32u8),
                style: TextStyle::dim_spec(),
            },
            SpanModel { text: seq![32u8], style: TextStyle::plain_spec() },
            SpanModel { text: e.message, style: TextStyle::plain_spec() },
        ],
        style: TextStyle::plain_spec(),
    }
}

/// The display lines of the entries `[c, hi)`, each with its chunk margin.
pub open spec fn lines_in_range(es: Seq<EntryModel>, c: int, hi: int) -> Seq<LineModel>
    decreases hi - c,
{
    if hi <= c {
        Seq::empty()
    } else {
        lines_in_range(es, c, hi - 1).push(
            display_line_spec(es[hi - 1], margin_for(es, c, hi - 1)),
        )
    }
}

/// The location tag carrying `l`.
pub open spec fn loc_tag_model(l: LocationModel) -> TagModel {
    TagModel { kind: BuildTagKind::Location, marker: None, location: Some(l) }
}

/// The entry with the location tag for `l` attached.
pub open spec fn set_loc(e: EntryModel, l: LocationModel) -> EntryModel {
    EntryModel { tags: set_tag_spec(e.tags, loc_tag_model(l)), ..e }
}

/// The location parsed from the entry's message: only entries without a
/// marker whose trimmed message starts with `-->` yield one, and a column
/// that fails to parse drops the whole location.
pub open spec fn entry_loc(e: EntryModel) -> Option<LocationModel> {
    if first_marker_model(e.tags) is Some {
        None
    } else {
        let t = trim_spec(e.message);
        if starts_with_spec(t, crate::bytes::arrow_prefix()) {
            match parse_location_spec(trim_spec(t.skip(3))) {
                Ok(l) => Some(l),
                Err(_) => None,
            }
        } else {
            None
        }
    }
}

/// The `(entry id, location)` pairs of entries `[c, hi)` that yield a
/// location, in entry order.
pub open spec fn loc_pairs(es: Seq<EntryModel>, c: int, hi: int) -> Seq<(int, LocationModel)>
    decreases hi - c,
{
    if hi <= c {
        Seq::empty()
    } else {
        loc_pairs(es, c, hi - 1) + match entry_loc(es[hi - 1]) {
            Some(l) => seq![(hi - 1, l)],
            None => Seq::<(int, LocationModel)>::empty(),
        }
    }
}

/// Whether some marker's block contains entry `e`.
pub open spec fn has_block(midx: Seq<(usize, BuildTagKind)>, e: int) -> bool {
    exists|j: int| is_block_idx(midx, e, j)
}

/// The index of the marker whose block contains entry `e`.
pub open spec fn block_idx_of(midx: Seq<(usize, BuildTagKind)>, e: int) -> int {
    choose|j: int| is_block_idx(midx, e, j)
}

/// The `[start, end)` entry range of the block that contains entry `e`.
pub open spec fn block_bounds(midx: Seq<(usize, BuildTagKind)>, total: int, e: int) -> (int, int) {
    let j = block_idx_of(midx, e);
    (
        midx[j].0 as int,
        if j + 1 < midx.len() {
            midx[j + 1].0 as int
        } else {
            total
        },
    )
}

/// Attach location `l` to every entry of the block containing entry `i`,
/// when one does.
pub open spec fn apply_loc(
    es: Seq<EntryModel>,
    midx: Seq<(usize, BuildTagKind)>,
    i: int,
    l: LocationModel,
) -> Seq<EntryModel> {
    if has_block(midx, i) {
        let b = block_bounds(midx, es.len() as int, i);
        Seq::new(
            es.len(),
            |x: int|
                if b.0 <= x < b.1 {
                    set_loc(es[x], l)
                } else {
                    es[x]
                },
        )
    } else {
        es
    }
}

/// Apply every collected location, in order.
pub open spec fn located_entries(
    es: Seq<EntryModel>,
    midx: Seq<(usize, BuildTagKind)>,
    locs: Seq<(int, LocationModel)>,
) -> Seq<EntryModel>
    decreases locs.len(),
{
    if locs.len() == 0 {
        es
    } else {
        located_entries(apply_loc(es, midx, locs[0].0, locs[0].1), midx, locs.drop_first())
    }
}

/// Unrolling of [`located_entries`] from the right.
pub proof fn lemma_located_push(
    es: Seq<EntryModel>,
    midx: Seq<(usize, BuildTagKind)>,
    locs: Seq<(int, LocationModel)>,
    p: (int, LocationModel),
)
    ensures
        located_entries(es, midx, locs.push(p)) == apply_loc(
            located_entries(es, midx, locs),
            midx,
            p.0,
            p.1,
        ),
    decreases locs.len(),
{
    let s1 = locs.push(p);
    if locs.len() == 0 {
        assert(s1.drop_first() =~= Seq::<(int, LocationModel)>::empty());
        assert(s1[0] == p);
        assert(located_entries(es, midx, s1) == located_entries(
            apply_loc(es, midx, p.0, p.1),
            midx,
            Seq::<(int, LocationModel)>::empty(),
        ));
    } else {
        assert(s1.drop_first() =~= locs.drop_first().push(p));
        assert(s1[0] == locs[0]);
        lemma_located_push(apply_loc(es, midx, locs[0].0, locs[0].1), midx, locs.drop_first(), p);
        assert(located_entries(es, midx, s1) == located_entries(
            apply_loc(es, midx, locs[0].0, locs[0].1),
            midx,
            locs.drop_first().push(p),
        ));
    }
}

/// The selection made when the first error of a batch is auto-selected:
/// the block containing the error, or marker zero when it has no block.
pub open spec fn auto_select_spec(
    midx: Seq<(usize, BuildTagKind)>,
    e: int,
) -> Option<MarkerSelection> {
    crate::marker::select_spec(
        midx,
        if has_block(midx, e) {
            block_idx_of(midx, e)
        } else {
            0
        },
        None,
    )
}

/// What one `prepare` call does to the whole store, when there is work.
pub open spec fn prepare_spec(o: OutputModel) -> OutputModel {
    if o.cursor >= o.entries.len() {
        o
    } else {
        let c = o.cursor as int;
        let total = o.entries.len() as int;
        let ce = classified_entries(o.entries, c, o.rule);
        let midx = marker_index_spec(ce);
        let errs = ids_with_kind(ce, c, BuildTagKind::Error);
        let sel = if o.selection is None && errs.len() > 0 {
            auto_select_spec(midx, errs[0] as int)
        } else {
            o.selection
        };
        OutputModel {
            entries: located_entries(ce, midx, loc_pairs(ce, c, total)),
            cursor: o.entries.len() as usize,
            prepared: o.prepared + lines_in_range(ce, c, total),
            errors: o.errors + errs,
            warnings: o.warnings + ids_with_kind(ce, c, BuildTagKind::Warning),
            notes: o.notes + ids_with_kind(ce, c, BuildTagKind::Note),
            events: o.events + errs.map_values(|i: usize| BuildEvent::BuildError(i)),
            markers_tags: midx,
            selection: sel,
            rule: o.rule,
            remove_noise: o.remove_noise,
        }
    }
}

/// Structural facts about the marker index of an entry sequence: every
/// marker stands on an existing entry whose first marker it is, the ids
/// are strictly increasing, and every entry with a marker appears.
pub proof fn lemma_marker_index(es: Seq<EntryModel>)
    requires
        es.len() <= usize::MAX,
    ensures
        forall|j: int|
            0 <= j < marker_index_spec(es).len() ==> (#[trigger] marker_index_spec(es)[j]).0
                < es.len() && (first_marker_model(es[marker_index_spec(es)[j].0 as int].tags) matches Some(
                m,
            ) && m.declared.tag == marker_index_spec(es)[j].1),
        midx_sorted(marker_index_spec(es)),
        forall|i: int|
            0 <= i < es.len() && first_marker_model((#[trigger] es[i]).tags) is Some
                ==> midx_has_id(marker_index_spec(es), i),
    decreases es.len(),
{
    let m = marker_index_spec(es);
    if es.len() > 0 {
        lemma_marker_index(es.drop_last());
        let rest = marker_index_spec(es.drop_last());
        assert forall|i: int| 0 <= i < es.drop_last().len() implies es.drop_last()[i] == es[i] by {}
        match first_marker_model(es.last().tags) {
            Some(mk0) => {
                assert(m == rest.push((((es.len() - 1) as usize), mk0.declared.tag)));
            },
            None => {
                assert(m == rest);
            },
        }
        assert forall|j: int|
            0 <= j < m.len() implies (#[trigger] m[j]).0 < es.len() && (first_marker_model(
            es[m[j].0 as int].tags,
        ) matches Some(mk) && mk.declared.tag == m[j].1) by {
            if j < rest.len() {
                assert(m[j] == rest[j]);
                assert(es.drop_last()[rest[j].0 as int] == es[rest[j].0 as int]);
            } else {
                assert(first_marker_model(es.last().tags) is Some);
                assert(m[j].0 == es.len() - 1);
                assert(es[m[j].0 as int] == es.last());
            }
        }
        assert(midx_sorted(m)) by {
            assert forall|a: int, b: int|
                0 <= a < b < m.len() implies (#[trigger] m[a]).0 < (#[trigger] m[b]).0 by {
                if b < rest.len() {
                    assert(m[a] == rest[a] && m[b] == rest[b]);
                } else {
                    assert(m[a] == rest[a]);
                    assert(rest[a].0 < es.drop_last().len());
                    assert(m[b].0 == es.len() - 1);
                }
            }
        }
        assert forall|i: int|
            0 <= i < es.len() && first_marker_model((#[trigger] es[i]).tags) is Some
            implies midx_has_id(m, i) by {
            if i < es.len() - 1 {
                assert(es.drop_last()[i] == es[i]);
                assert(midx_has_id(rest, i));
                let j = choose|j: int| 0 <= j < rest.len() && (#[trigger] rest[j]).0 == i;
                assert(m[j] == rest[j]);
                assert(0 <= j < m.len() && m[j].0 == i);
            } else {
                assert(m[m.len() - 1].0 == i);
            }
        }
    }
}

/// Whether the marker index holds a marker at entry id `i`.
pub open spec fn midx_has_id(midx: Seq<(usize, BuildTagKind)>, i: int) -> bool {
    exists|j: int| 0 <= j < midx.len() && (#[trigger] midx[j]).0 == i
}

/// A sorted marker index has a block for `e` exactly when it is non-empty
/// and `e` does not lie before the first marker.
pub proof fn lemma_has_block(midx: Seq<(usize, BuildTagKind)>, e: int, j: int)
    requires
        midx_sorted(midx),
        is_block_idx(midx, e, j),
    ensures
        has_block(midx, e),
        block_idx_of(midx, e) == j,
{
    assert(has_block(midx, e));
    crate::marker::lemma_block_idx_unique(midx, e, j, block_idx_of(midx, e));
}

/// No block exists for an entry before the first marker, or when there
/// are no markers.
pub proof fn lemma_no_block(midx: Seq<(usize, BuildTagKind)>, e: int)
    requires
        midx_sorted(midx),
        midx.len() == 0 || e < midx[0].0,
    ensures
        !has_block(midx, e),
{
    assert forall|j: int| !is_block_idx(midx, e, j) by {
        if 0 <= j < midx.len() {
            assert(midx[0].0 <= midx[j].0 || j == 0);
        }
    }
}

/// Attaching a location tag neither changes which tag carries the first
/// marker nor breaks tag hygiene.
pub proof fn lemma_set_loc_marker(tags: Seq<TagModel>, l: LocationModel)
    requires
        tags_hygiene(tags),
    ensures
        first_marker_model(set_tag_spec(tags, loc_tag_model(l))) == first_marker_model(tags),
        tags_hygiene(set_tag_spec(tags, loc_tag_model(l))),
{
    let t = loc_tag_model(l);
    let ti = tag_index(tags, BuildTagKind::Location);
    let out = set_tag_spec(tags, t);
    crate::tag::lemma_tag_index(tags, BuildTagKind::Location);
    let f = crate::tag::first_marker_idx(tags);
    crate::tag::lemma_first_marker_idx(tags);
    assert forall|i: int|
        0 <= i < out.len() implies ((#[trigger] out[i]).marker is Some <==> (i < tags.len()
        && tags[i].marker is Some)) by {
        if ti >= 0 {
            assert(out == tags.update(ti, t));
            if i == ti {
                assert(tags[ti].kind == BuildTagKind::Location);
                assert(tags[ti].marker is None);
            }
        } else {
            assert(out == tags.push(t));
        }
    }
    if f >= 0 {
        assert(out[f].marker == tags[f].marker) by {
            if ti >= 0 {
                assert(tags[ti].marker is None);
                assert(f != ti);
            }
        }
        crate::tag::lemma_first_marker_idx_is(out, f);
    } else {
        assert forall|j: int| 0 <= j < out.len() implies out[j].marker is None by {}
        crate::tag::lemma_first_marker_idx_none(out);
    }
    assert forall|i: int|
        0 <= i < out.len() implies ((#[trigger] out[i]).kind == BuildTagKind::Location ==> out[i].marker
        is None) by {
        if ti >= 0 {
            assert(out == tags.update(ti, t));
        } else {
            assert(out == tags.push(t));
        }
    }
}

/// Sequences of entries whose first markers agree pointwise have the same
/// marker index.
pub proof fn lemma_midx_pointwise(a: Seq<EntryModel>, b: Seq<EntryModel>)
    requires
        a.len() == b.len(),
        forall|i: int|
            0 <= i < a.len() ==> first_marker_model((#[trigger] a[i]).tags) == first_marker_model(
                b[i].tags,
            ),
    ensures
        marker_index_spec(a) == marker_index_spec(b),
    decreases a.len(),
{
    if a.len() > 0 {
        assert forall|i: int|
            0 <= i < a.drop_last().len() implies first_marker_model(
            (#[trigger] a.drop_last()[i]).tags,
        ) == first_marker_model(b.drop_last()[i].tags) by {
            assert(a.drop_last()[i] == a[i]);
            assert(b.drop_last()[i] == b[i]);
        }
        lemma_midx_pointwise(a.drop_last(), b.drop_last());
        assert(first_marker_model(a.last().tags) == first_marker_model(b.last().tags));
    }
}

/// Attaching a tag that is hygienic keeps the tag list hygienic.
pub proof fn lemma_set_tag_hygiene(tags: Seq<TagModel>, t: TagModel)
    requires
        tags_hygiene(tags),
        t.kind == BuildTagKind::Location ==> t.marker is None,
    ensures
        tags_hygiene(set_tag_spec(tags, t)),
{
    let ti = tag_index(tags, t.kind);
    let out = set_tag_spec(tags, t);
    crate::tag::lemma_tag_index(tags, t.kind);
    assert forall|i: int|
        0 <= i < out.len() implies ((#[trigger] out[i]).kind == BuildTagKind::Location ==> out[i].marker
        is None) by {
        if ti >= 0 {
            assert(out == tags.update(ti, t));
        } else {
            assert(out == tags.push(t));
        }
    }
}

/// Classification under a well-formed rule keeps the tag list hygienic.
pub proof fn lemma_classify_hygiene(tags: Seq<TagModel>, ms: Seq<DeclModel>, msg: Seq<u8>)
    requires
        tags_hygiene(tags),
        forall|i: int|
            0 <= i < ms.len() ==> ((#[trigger] ms[i]).tag == BuildTagKind::Error || ms[i].tag
                == BuildTagKind::Warning || ms[i].tag == BuildTagKind::Note),
    ensures
        tags_hygiene(classify_tags(tags, ms, msg)),
    decreases ms.len(),
{
    if ms.len() > 0 {
        let t1 = crate::tag::apply_marker(tags, ms[0], msg);
        assert(tags_hygiene(t1)) by {
            match crate::pattern::regex_find_spec(ms[0].pattern, msg) {
                Some(p) => {
                    lemma_set_tag_hygiene(
                        tags,
                        crate::tag::marker_tag_model(ms[0], p.0, p.1, msg),
                    );
                },
                None => {},
            }
        }
        assert forall|i: int|
            0 <= i < ms.drop_first().len() implies ((#[trigger] ms.drop_first()[i]).tag
            == BuildTagKind::Error || ms.drop_first()[i].tag == BuildTagKind::Warning
            || ms.drop_first()[i].tag == BuildTagKind::Note) by {
            assert(ms.drop_first()[i] == ms[i + 1]);
        }
        lemma_classify_hygiene(t1, ms.drop_first(), msg);
    }
}

/// One display line is produced per entry in the range.
pub proof fn lemma_lines_len(es: Seq<EntryModel>, c: int, hi: int)
    ensures
        lines_in_range(es, c, hi).len() == if hi >= c {
            hi - c
        } else {
            0
        },
    decreases hi - c,
{
    if hi > c {
        lemma_lines_len(es, c, hi - 1);
    }
}

/// Applying collected locations preserves every entry's first marker, its
/// message and hygiene, and therefore the marker index.
pub proof fn lemma_located_preserves(
    es: Seq<EntryModel>,
    midx: Seq<(usize, BuildTagKind)>,
    locs: Seq<(int, LocationModel)>,
)
    requires
        forall|i: int| 0 <= i < es.len() ==> tags_hygiene((#[trigger] es[i]).tags),
    ensures
        located_entries(es, midx, locs).len() == es.len(),
        forall|i: int|
            0 <= i < es.len() ==> first_marker_model(
                (#[trigger] located_entries(es, midx, locs)[i]).tags,
            ) == first_marker_model(es[i].tags) && located_entries(es, midx, locs)[i].message
                == es[i].message && tags_hygiene(located_entries(es, midx, locs)[i].tags),
    decreases locs.len(),
{
    if locs.len() > 0 {
        let e1 = apply_loc(es, midx, locs[0].0, locs[0].1);
        assert(e1.len() == es.len());
        assert forall|i: int|
            0 <= i < es.len() implies first_marker_model((#[trigger] e1[i]).tags)
            == first_marker_model(es[i].tags) && e1[i].message == es[i].message && tags_hygiene(
            e1[i].tags,
        ) by {
            if has_block(midx, locs[0].0) {
                let b = block_bounds(midx, es.len() as int, locs[0].0);
                if b.0 <= i < b.1 {
                    lemma_set_loc_marker(es[i].tags, locs[0].1);
                }
            }
        }
        lemma_located_preserves(e1, midx, locs.drop_first());
        assert forall|i: int|
            0 <= i < es.len() implies first_marker_model(
            (#[trigger] located_entries(es, midx, locs)[i]).tags,
        ) == first_marker_model(es[i].tags) && located_entries(es, midx, locs)[i].message
            == es[i].message && tags_hygiene(located_entries(es, midx, locs)[i].tags) by {
            assert(located_entries(es, midx, locs) == located_entries(
                e1,
                midx,
                locs.drop_first(),
            ));
        }
    }
}

/// The append-only store of output entries, their display lines, and the
/// derived marker index, counters and selection.  The classification rule
/// is snapshotted at construction.
#[derive(Debug)]
pub struct BuildOutput {
    pub rule: Rule,
    pub entries: Vec<BuildEntry>,
    pub warnings: Vec<usize>,
    pub notes: Vec<usize>,
    pub errors: Vec<usize>,
    pub events: Vec<BuildEvent>,
    pub remove_noise: bool,
    pub cursor: usize,
    pub prepared: Vec<crate::style::DisplayLine>,
    pub markers: Markers,
}

impl View for BuildOutput {
    type V = OutputModel;

    open spec fn view(&self) -> OutputModel {
        OutputModel {
            rule: self.rule@,
            entries: entries_view(self.entries@),
            warnings: self.warnings@,
            notes: self.notes@,
            errors: self.errors@,
            events: self.events@,
            remove_noise: self.remove_noise,
            cursor: self.cursor,
            prepared: self.prepared@.map_values(|l: crate::style::DisplayLine| l@),
            markers_tags: self.markers.tags@,
            selection: self.markers.selection,
        }
    }
}

/// Every declared marker yields an error, warning or note tag.
pub open spec fn rule_wf(r: RuleModel) -> bool {
    forall|i: int|
        0 <= i < r.markers.len() ==> ((#[trigger] r.markers[i]).tag == BuildTagKind::Error
            || r.markers[i].tag == BuildTagKind::Warning || r.markers[i].tag
            == BuildTagKind::Note)
}

/// Location tags never carry a marker.
pub open spec fn tags_hygiene(tags: Seq<TagModel>) -> bool {
    forall|i: int|
        0 <= i < tags.len() ==> ((#[trigger] tags[i]).kind == BuildTagKind::Location ==> tags[i].marker
            is None)
}

/// The store's invariant: the cursor splits the entries into a prepared
/// prefix (one display line each) and an unprepared suffix, the marker
/// index describes the prepared prefix, the rule declares only marker
/// kinds, and location tags carry no marker.
pub open spec fn output_inv(o: OutputModel) -> bool {
    &&& o.cursor <= o.entries.len()
    &&& o.prepared.len() == o.cursor
    &&& o.markers_tags == marker_index_spec(o.entries.take(o.cursor as int))
    &&& rule_wf(o.rule)
    &&& forall|i: int| 0 <= i < o.entries.len() ==> tags_hygiene((#[trigger] o.entries[i]).tags)
}

impl BuildOutput {
    /// A fresh store that will classify with the given rule snapshot.
    pub fn new(rule: Rule) -> (r: Self)
        requires
            rule_wf(rule@),
        ensures
            r@ == (OutputModel {
                rule: rule@,
                entries: Seq::empty(),
                warnings: Seq::empty(),
                notes: Seq::empty(),
                errors: Seq::empty(),
                events: Seq::empty(),
                remove_noise: false,
                cursor: 0,
                prepared: Seq::empty(),
                markers_tags: Seq::empty(),
                selection: None,
            }),
            output_inv(r@),
    {
        let r = BuildOutput {
            rule,
            entries: Vec::new(),
            warnings: Vec::new(),
            notes: Vec::new(),
            errors: Vec::new(),
            events: Vec::new(),
            remove_noise: false,
            cursor: 0,
            prepared: Vec::new(),
            markers: Markers::new(),
        };
        proof {
            assert(r@.entries =~= Seq::<EntryModel>::empty());
            assert(r@.prepared =~= Seq::<LineModel>::empty());
            assert(r@.entries.take(0) =~= Seq::<EntryModel>::empty());
        }
        r
    }

    /// The store with display filtering switched on or off.
    pub fn with_noise_removed(self, r: bool) -> (s: Self)
        ensures
            s@ == (OutputModel { remove_noise: r, ..self@ }),
    {
        BuildOutput { remove_noise: r, ..self }
    }

    /// Append one entry to the unprepared queue.
    pub fn push(&mut self, e: BuildEntry)
        requires
            tags_hygiene(e@.tags),
        ensures
            final(self)@ == (OutputModel {
                entries: old(self)@.entries.push(e@),
                ..old(self)@
            }),
            output_inv(old(self)@) ==> output_inv(final(self)@),
    {
        let ghost before = self@;
        self.entries.push(e);
        proof {
            assert(self@.entries =~= before.entries.push(e@));
            if output_inv(before) {
                assert(self@.entries.take(before.cursor as int) =~= before.entries.take(
                    before.cursor as int,
                ));
            }
        }
    }

    /// Append several entries to the unprepared queue.
    pub fn extend(&mut self, entries: Vec<BuildEntry>)
        requires
            forall|i: int|
                0 <= i < entries@.len() ==> tags_hygiene((#[trigger] entries@[i])@.tags),
        ensures
            final(self)@ == (OutputModel {
                entries: old(self)@.entries + entries_view(entries@),
                ..old(self)@
            }),
            output_inv(old(self)@) ==> output_inv(final(self)@),
    {
        let ghost before = self@;
        let ghost added = entries_view(entries@);
        let n = entries.len();
        let mut entries = entries;
        let mut i: usize = 0;
        while i < n
            invariant
                0 <= i <= n,
                entries@.len() == n - i,
                forall|j: int|
                    0 <= j < entries@.len() ==> entries@[j]@ == added[j + i],
                added.len() == n,
                self@ == (OutputModel {
                    entries: before.entries + added.take(i as int),
                    ..before
                }),
                forall|j: int| 0 <= j < added.len() ==> tags_hygiene((#[trigger] added[j]).tags),
            decreases n - i,
        {
            let e = entries.remove(0);
            proof {
                assert(e@ == added[i as int]);
                assert(tags_hygiene(e@.tags));
            }
            let ghost mid = self@;
            self.entries.push(e);
            proof {
                assert(self@.entries =~= mid.entries.push(e@));
                assert(self@.entries =~= before.entries + added.take(i + 1));
                assert forall|j: int| 0 <= j < entries@.len() implies entries@[j]@ == added[j + i
                    + 1] by {}
            }
            i = i + 1;
        }
        proof {
            assert(added.take(n as int) =~= added);
            if output_inv(before) {
                assert(self@.entries.take(before.cursor as int) =~= before.entries.take(
                    before.cursor as int,
                ));
            }
        }
    }

    /// Attach a tag to entry `i`: a tag of the same kind is overwritten,
    /// since an entry holds at most one tag per kind; out-of-range ids are
    /// ignored.
    pub fn tag_entry(&mut self, i: usize, tag: BuildTag)
        ensures
            i < old(self)@.entries.len() ==> final(self)@ == (OutputModel {
                entries: old(self)@.entries.update(
                    i as int,
                    (EntryModel {
                        tags: set_tag_spec(old(self)@.entries[i as int].tags, tag@),
                        ..old(self)@.entries[i as int]
                    }),
                ),
                ..old(self)@
            }),
            i >= old(self)@.entries.len() ==> final(self)@ == old(self)@,
    {
        let ghost before = self@;
        if i < self.entries.len() {
            self.entries[i].set_tag(tag);
            proof {
                assert(self@.entries =~= before.entries.update(
                    i as int,
                    (EntryModel {
                        tags: set_tag_spec(before.entries[i as int].tags, tag@),
                        ..before.entries[i as int]
                    }),
                ));
            }
        }
    }

    /// Whether any entry was received.
    pub fn has_any_entries(&self) -> (r: bool)
        ensures
            r == (self@.entries.len() > 0),
    {
        self.num_entries() > 0
    }

    /// Whether entries are waiting to be prepared.
    pub fn has_unprepared_entries(&self) -> (r: bool)
        ensures
            r == (self@.cursor < self@.entries.len()),
    {
        self.cursor < self.entries.len()
    }

    /// The number of entries received.
    pub fn num_entries(&self) -> (r: usize)
        ensures
            r == self@.entries.len(),
    {
        self.entries.len()
    }

    /// Copies of the unprepared entries with their ids, or nothing when
    /// all entries are prepared.
    pub fn unprepared_entries(&self) -> (r: Option<Vec<(usize, BuildEntry)>>)
        requires
            self@.cursor <= self@.entries.len(),
        ensures
            match r {
                Some(v) => self@.cursor < self@.entries.len() && v@.len() == self@.entries.len()
                    - self@.cursor && forall|k: int|
                    0 <= k < v@.len() ==> (#[trigger] v@[k]).0 == self@.cursor + k && v@[k].1@
                        == self@.entries[self@.cursor + k],
                None => self@.cursor >= self@.entries.len(),
            },
    {
        if self.cursor >= self.entries.len() {
            return None;
        }
        let mut v: Vec<(usize, BuildEntry)> = Vec::new();
        let n = self.entries.len();
        let mut i: usize = self.cursor;
        while i < n
            invariant
                self@.cursor <= i <= n == self@.entries.len(),
                v@.len() == i - self@.cursor,
                forall|k: int|
                    0 <= k < v@.len() ==> (#[trigger] v@[k]).0 == self@.cursor + k && v@[k].1@
                        == self@.entries[self@.cursor + k],
            decreases n - i,
        {
            let e = self.entries[i].duplicate();
            v.push((i, e));
            i = i + 1;
        }
        Some(v)
    }

    /// Copies of the unprepared entries with their ids, split into the
    /// chunks the preparer works through: consecutive batches of the
    /// chunk size, the last one shorter when the entries run out.
    pub fn batch_unprepared_entries(&self) -> (r: Option<
        Vec<(usize, Vec<(usize, BuildEntry)>)>,
    >)
        requires
            self@.cursor <= self@.entries.len(),
        ensures
            match r {
                Some(v) => self@.cursor < self@.entries.len() && ({
                    let c = self@.cursor as int;
                    let total = self@.entries.len() as int;
                    let cs = chunk_size_spec(total);
                    v@.len() >= 1 && total <= c + v@.len() * cs && c + (v@.len() - 1) * cs < total
                        && forall|bi: int|
                        0 <= bi < v@.len() ==> (#[trigger] v@[bi]).0 == bi && v@[bi].1@.len() == (
                        if total - (c + bi * cs) < cs {
                            total - (c + bi * cs)
                        } else {
                            cs
                        }) && forall|k: int|
                            0 <= k < v@[bi].1@.len() ==> (#[trigger] v@[bi].1@[k]).0 == c + bi * cs
                                + k && v@[bi].1@[k].1@ == self@.entries[c + bi * cs + k]
                }),
                None => self@.cursor >= self@.entries.len(),
            },
    {
        let total = self.entries.len();
        let c = self.cursor;
        if c >= total {
            return None;
        }
        let cs: usize = (if total > 5 {
            total
        } else {
            5
        }) / 5;
        proof {
            assert(cs == chunk_size_spec(total as int));
            assert(cs >= 1);
        }
        let mut v: Vec<(usize, Vec<(usize, BuildEntry)>)> = Vec::new();
        let mut b0: usize = c;
        proof {
            assert(0int * cs == 0) by (nonlinear_arith);
        }
        while b0 < total
            invariant
                c <= b0 <= total == self.entries@.len(),
                cs == chunk_size_spec(total as int),
                1 <= cs,
                b0 as int == c + v@.len() * cs || b0 == total,
                b0 as int <= c + v@.len() * cs,
                v@.len() == 0 || c + (v@.len() - 1) * cs < b0,
                forall|bi: int|
                    0 <= bi < v@.len() ==> (#[trigger] v@[bi]).0 == bi && v@[bi].1@.len() == (
                    if total - (c + bi * cs) < cs {
                        total as int - (c + bi * cs)
                    } else {
                        cs as int
                    }) && forall|k: int|
                        0 <= k < v@[bi].1@.len() ==> (#[trigger] v@[bi].1@[k]).0 == c + bi * cs + k
                            && v@[bi].1@[k].1@ == entries_view(self.entries@)[c + bi * cs + k],
            decreases total - b0,
        {
            let ghost nb = v@.len() as int;
            let b1: usize = if total - b0 > cs {
                b0 + cs
            } else {
                total
            };
            let mut batch: Vec<(usize, BuildEntry)> = Vec::new();
            let mut x: usize = b0;
            while x < b1
                invariant
                    b0 <= x <= b1 <= total == self.entries@.len(),
                    batch@.len() == x - b0,
                    forall|k: int|
                        0 <= k < batch@.len() ==> (#[trigger] batch@[k]).0 == b0 + k
                            && batch@[k].1@ == entries_view(self.entries@)[b0 + k],
                decreases b1 - x,
            {
                let e = self.entries[x].duplicate();
                batch.push((x, e));
                x = x + 1;
            }
            let bi = v.len();
            v.push((bi, batch));
            proof {
                assert((nb + 1) * cs == nb * cs + cs) by (nonlinear_arith);
                assert(nb * cs == (nb + 1 - 1) * cs);
            }
            b0 = b1;
        }
        Some(v)
    }

    /// The marker index and selection.
    pub fn markers(&self) -> (r: &Markers)
        ensures
            r == &self.markers,
    {
        &self.markers
    }

    /// The marker index and selection, mutably.
    pub fn markers_mut(&mut self) -> (r: &mut Markers)
        ensures
            *r == old(self).markers,
            final(self).markers == *final(r),
            final(self).rule == old(self).rule,
            final(self).entries == old(self).entries,
            final(self).warnings == old(self).warnings,
            final(self).notes == old(self).notes,
            final(self).errors == old(self).errors,
            final(self).events == old(self).events,
            final(self).remove_noise == old(self).remove_noise,
            final(self).cursor == old(self).cursor,
            final(self).prepared == old(self).prepared,
    {
        &mut self.markers
    }

    /// Parse a `-->`-prefixed location line.  Yields the location for
    /// `--> path[:line[:column]]`, nothing for other lines, and a parsing
    /// error when a column is present but not numeric.
    pub fn extract_location(message: &Vec<u8>) -> (r: Result<Option<Location>, Error>)
        ensures
            ({
                let t = trim_spec(message@);
                if starts_with_spec(t, crate::bytes::arrow_prefix()) {
                    match parse_location_spec(trim_spec(t.skip(3))) {
                        Ok(l) => r matches Ok(o) && o matches Some(loc) && loc@ == l,
                        Err(k) => r matches Err(e) && e.kind == k,
                    }
                } else {
                    r matches Ok(o) && o is None
                }
            }),
    {
        let t = trim(message);
        let prefix = crate::bytes::arrow_prefix_vec();
        if starts_with(&t, &prefix) {
            let rest = crate::bytes::subvec(&t, 3, t.len());
            proof {
                assert(rest@ =~= trim_spec(message@).skip(3));
            }
            let inner = trim(&rest);
            match Location::parse(&inner) {
                Ok(loc) => Ok(Some(loc)),
                Err(e) => Err(e),
            }
        } else {
            Ok(None)
        }
    }

    /// The entry range of the block containing `entry_id`: from the marker
    /// at or before it to the next marker, or to the end of the log.
    pub fn block_range_at(&self, entry_id: usize) -> (r: Option<ByteRange>)
        requires
            output_inv(self@),
        ensures
            match r {
                Some(rg) => has_block(self@.markers_tags, entry_id as int) && ({
                    let b = block_bounds(
                        self@.markers_tags,
                        self@.entries.len() as int,
                        entry_id as int,
                    );
                    rg.start == b.0 && rg.end == b.1
                }),
                None => !has_block(self@.markers_tags, entry_id as int),
            },
    {
        proof {
            lemma_marker_index(self@.entries.take(self@.cursor as int));
        }
        let n = self.entries.len();
        match find_block_index(&self.markers.tags, entry_id) {
            Some(j) => {
                proof {
                    lemma_has_block(self@.markers_tags, entry_id as int, j as int);
                    lemma_marker_index(self@.entries.take(self@.cursor as int));
                    assert(self@.markers_tags[j as int].0 < self@.entries.take(
                        self@.cursor as int,
                    ).len());
                }
                let m = self.markers.tags.len();
                let start = self.markers.tags[j].0;
                let end = if j < m - 1 {
                    self.markers.tags[j + 1].0
                } else {
                    n
                };
                Some(ByteRange { start, end })
            },
            None => {
                proof {
                    lemma_no_block(self@.markers_tags, entry_id as int);
                }
                None
            },
        }
    }

    /// The block containing `entry_id`: its marker id, marker, range and
    /// copies of its entries.
    pub fn block_at(&self, entry_id: usize) -> (r: Option<MarkedBlock>)
        requires
            output_inv(self@),
        ensures
            match r {
                Some(b) => has_block(self@.markers_tags, entry_id as int) && ({
                    let j = block_idx_of(self@.markers_tags, entry_id as int);
                    let bb = block_bounds(
                        self@.markers_tags,
                        self@.entries.len() as int,
                        entry_id as int,
                    );
                    &&& b@.marker_id == j
                    &&& b@.entry_range.start == bb.0
                    &&& b@.entry_range.end == bb.1
                    &&& Some(b@.marker) == first_marker_model(self@.entries[bb.0].tags)
                    &&& 0 <= bb.0 <= bb.1 <= self@.entries.len()
                    &&& b@.entries == self@.entries.subrange(bb.0, bb.1)
                    &&& b@.entries.len() == bb.1 - bb.0
                }),
                None => !has_block(self@.markers_tags, entry_id as int),
            },
    {
        proof {
            lemma_marker_index(self@.entries.take(self@.cursor as int));
        }
        let n = self.entries.len();
        match find_block_index(&self.markers.tags, entry_id) {
            Some(j) => {
                proof {
                    lemma_has_block(self@.markers_tags, entry_id as int, j as int);
                    assert(self@.markers_tags[j as int].0 < self@.entries.take(
                        self@.cursor as int,
                    ).len());
                    assert(self@.entries.take(self@.cursor as int)[self@.markers_tags[j as int].0 as int]
                        == self@.entries[self@.markers_tags[j as int].0 as int]);
                }
                let m = self.markers.tags.len();
                let start = self.markers.tags[j].0;
                let end = if j < m - 1 {
                    self.markers.tags[j + 1].0
                } else {
                    n
                };
                let marker = match self.entries[start].first_marker() {
                    Some(m) => m.duplicate(),
                    None => {
                        proof {
                            assert(false);
                        }
                        crate::marker::MarkerRef {
                            captured: None,
                            declared: DeclaredMarker {
                                tag: BuildTagKind::Error,
                                pattern: Vec::new(),
                                style: TextStyle::plain(),
                            },
                        }
                    },
                };
                proof {
                    if j + 1 < self.markers.tags@.len() {
                        assert(self@.markers_tags[j + 1].0 < self@.entries.take(
                            self@.cursor as int,
                        ).len());
                    }
                }
                let mut es: Vec<BuildEntry> = Vec::new();
                let mut x: usize = start;
                while x < end
                    invariant
                        start <= x <= end <= self.entries@.len(),
                        es@.len() == x - start,
                        forall|k: int|
                            0 <= k < es@.len() ==> (#[trigger] es@[k])@ == entries_view(
                                self.entries@,
                            )[start + k],
                    decreases end - x,
                {
                    let e = self.entries[x].duplicate();
                    es.push(e);
                    x = x + 1;
                }
                let b = MarkedBlock {
                    marker_id: j,
                    marker,
                    entry_range: ByteRange { start, end },
                    entries: es,
                };
                proof {
                    assert(b@.entries =~= self@.entries.subrange(start as int, end as int));
                }
                Some(b)
            },
            None => {
                proof {
                    lemma_no_block(self@.markers_tags, entry_id as int);
                }
                None
            },
        }
    }

    /// The number of entries in the block containing `entry_id`.
    pub fn block_size(&self, entry_id: usize) -> (r: Option<usize>)
        requires
            output_inv(self@),
        ensures
            match r {
                Some(n) => has_block(self@.markers_tags, entry_id as int) && ({
                    let bb = block_bounds(
                        self@.markers_tags,
                        self@.entries.len() as int,
                        entry_id as int,
                    );
                    n == bb.1 - bb.0
                }),
                None => !has_block(self@.markers_tags, entry_id as int),
            },
    {
        match self.block_at(entry_id) {
            Some(b) => Some(b.entries.len()),
            None => None,
        }
    }

    /// Record a build event for the front end to drain.
    pub fn send_event(&mut self, event: BuildEvent)
        ensures
            final(self)@ == (OutputModel { events: old(self)@.events.push(event), ..old(self)@ }),
    {
        let ghost before = self@;
        self.events.push(event);
        proof {
            assert(self@.events =~= before.events.push(event));
        }
    }

    /// Drain the recorded build events.
    pub fn take_events(&mut self) -> (r: Vec<BuildEvent>)
        ensures
            r@ == old(self)@.events,
            final(self)@ == (OutputModel { events: Seq::empty(), ..old(self)@ }),
    {
        let mut out: Vec<BuildEvent> = Vec::new();
        core::mem::swap(&mut out, &mut self.events);
        proof {
            assert(self@.events =~= Seq::<BuildEvent>::empty());
        }
        out
    }

    /// The rule snapshot's declared marker of kind `tag`, if any.
    pub fn find_marker(&self, tag: BuildTagKind) -> (r: Option<&DeclaredMarker>)
        ensures
            match r {
                Some(d) => crate::tag::decl_index(self@.rule.markers, tag) >= 0 && d@
                    == self@.rule.markers[crate::tag::decl_index(self@.rule.markers, tag)],
                None => crate::tag::decl_index(self@.rule.markers, tag) < 0,
            },
    {
        let n = self.rule.markers.len();
        let mut i: usize = 0;
        while i < n
            invariant
                0 <= i <= n == self.rule.markers@.len(),
                forall|j: int| 0 <= j < i ==> self@.rule.markers[j].tag != tag,
            decreases n - i,
        {
            if self.rule.markers[i].tag == tag {
                proof {
                    assert(self@.rule.markers[i as int] == self.rule.markers@[i as int]@);
                    crate::tag::lemma_decl_index(self@.rule.markers, tag);
                }
                return Some(&self.rule.markers[i]);
            }
            i = i + 1;
        }
        proof {
            crate::tag::lemma_decl_index(self@.rule.markers, tag);
        }
        None
    }

    /// Select the block containing `entry_id`, or marker zero when it has
    /// no block.
    pub fn select_block_from_entry(&mut self, entry_id: usize)
        requires
            output_inv(old(self)@),
        ensures
            final(self)@ == (OutputModel {
                selection: auto_select_spec(old(self)@.markers_tags, entry_id as int),
                ..old(self)@
            }),
    {
        let marker_id: usize = match self.block_at(entry_id) {
            Some(b) => b.marker_id,
            None => 0,
        };
        self.markers.select(marker_id, None);
    }

    /// Point the selection at `entry_id` inside its block, with an
    /// optional highlighted region; the block's marker id is used, or
    /// marker zero when the entry has no block.
    pub fn select_entry(&mut self, entry_id: usize, region: Option<ByteRange>)
        requires
            output_inv(old(self)@),
        ensures
            final(self)@ == (OutputModel {
                selection: Some(
                    MarkerSelection {
                        marker_id: (if has_block(old(self)@.markers_tags, entry_id as int) {
                            block_idx_of(old(self)@.markers_tags, entry_id as int)
                        } else {
                            0
                        }) as usize,
                        entry_id,
                        region,
                    },
                ),
                ..old(self)@
            }),
    {
        let marker_id: usize = match self.block_at(entry_id) {
            Some(b) => b.marker_id,
            None => 0,
        };
        self.markers.set_selection(Some(MarkerSelection { marker_id, entry_id, region }));
    }

    /// The rows to render: one per prepared line, carrying the entry's
    /// tags, with the selected entry's line highlighted.
    pub fn display(&self) -> (r: Vec<crate::log::LogEntry>)
        requires
            output_inv(self@),
        ensures
            r@.len() == self@.prepared.len(),
            forall|i: int|
                0 <= i < r@.len() ==> (#[trigger] r@[i])@.tags == self@.entries[i].tags
                    && r@[i]@.line == (if self@.selection matches Some(s) && s.entry_id == i {
                    crate::log::highlight_spec(self@.prepared[i])
                } else {
                    self@.prepared[i]
                }),
    {
        let sel_id: Option<usize> = match self.markers.selection() {
            Some(s) => Some(s.entry_id),
            None => None,
        };
        let n = self.prepared.len();
        let mut r: Vec<crate::log::LogEntry> = Vec::new();
        let mut i: usize = 0;
        while i < n
            invariant
                0 <= i <= n == self@.prepared.len(),
                n <= self@.entries.len(),
                n == self.prepared@.len(),
                n <= self.entries@.len(),
                sel_id == (match self@.selection {
                    Some(s) => Some(s.entry_id),
                    None => None::<usize>,
                }),
                r@.len() == i,
                forall|x: int|
                    0 <= x < i ==> (#[trigger] r@[x])@.tags == self@.entries[x].tags && r@[x]@.line
                        == (if self@.selection matches Some(s) && s.entry_id == x {
                        crate::log::highlight_spec(self@.prepared[x])
                    } else {
                        self@.prepared[x]
                    }),
            decreases n - i,
        {
            let mut line = self.prepared[i].duplicate();
            let selected = match sel_id {
                Some(s) => s == i,
                None => false,
            };
            if selected {
                line.style = TextStyle { bg: crate::style::TextColor::LightBlue, ..line.style };
            }
            let tags = self.entries[i].duplicate().tags;
            proof {
                assert(self@.entries[i as int] == self.entries@[i as int]@);
            }
            let le = crate::log::LogEntry { line, tags };
            r.push(le);
            i = i + 1;
        }
        r
    }

    /// The stored entries.
    pub fn entries(&self) -> (r: &Vec<BuildEntry>)
        ensures
            r == &self.entries,
    {
        &self.entries
    }

    /// The ids of entries with an error tag, in discovery order.
    pub fn errors(&self) -> (r: &Vec<usize>)
        ensures
            r == &self.errors,
    {
        &self.errors
    }

    /// The ids of entries with a warning tag, in discovery order.
    pub fn warnings(&self) -> (r: &Vec<usize>)
        ensures
            r == &self.warnings,
    {
        &self.warnings
    }

    /// The ids of entries with a note tag, in discovery order.
    pub fn notes(&self) -> (r: &Vec<usize>)
        ensures
            r == &self.notes,
    {
        &self.notes
    }

    /// The preparation cursor: how many entries have been prepared.
    pub fn cursor(&self) -> (r: usize)
        ensures
            r == self@.cursor,
    {
        self.cursor
    }

    /// Substring search over the entries, in entry order.  Yields the
    /// block of the first entry whose message contains `query`, and a
    /// selection of that entry with the match highlighted.  The search is
    /// single-shot: it stops at the first hit.  It yields nothing when no
    /// message contains the query, and — deliberately — also when the
    /// first hit lies before the first marker, since such an entry belongs
    /// to no block and there is no block to return; the contract's last
    /// arm states this case exactly.
    pub fn search(&self, query: &Vec<u8>) -> (r: Option<(MarkedBlock, MarkerSelection)>)
        requires
            output_inv(self@),
        ensures
            match r {
                Some(p) => exists|i: int, pos: int|
                    {
                        &&& 0 <= i < self@.entries.len()
                        &&& #[trigger] crate::bytes::match_at(
                            self@.entries[i].message,
                            query@,
                            pos,
                        )
                        &&& forall|x: int|
                            0 <= x < i ==> !entry_matches(self@.entries[x], query@)
                        &&& forall|y: int|
                            0 <= y < pos ==> !crate::bytes::match_at(
                                self@.entries[i].message,
                                query@,
                                y,
                            )
                        &&& has_block(self@.markers_tags, i)
                        &&& p.1 == (MarkerSelection {
                            marker_id: block_idx_of(self@.markers_tags, i) as usize,
                            entry_id: i as usize,
                            region: Some(
                                ByteRange {
                                    start: pos as usize,
                                    end: (pos + query@.len()) as usize,
                                },
                            ),
                        })
                        &&& p.0@.marker_id == block_idx_of(self@.markers_tags, i)
                        &&& ({
                            let bb = block_bounds(
                                self@.markers_tags,
                                self@.entries.len() as int,
                                i,
                            );
                            p.0@.entry_range.start == bb.0 && p.0@.entry_range.end == bb.1
                            && bb.0 <= i < bb.1 && p.0@.entries == self@.entries.subrange(
                                bb.0,
                                bb.1,
                            )
                        })
                    },
                None => (forall|x: int|
                    0 <= x < self@.entries.len() ==> !entry_matches(
                        #[trigger] self@.entries[x],
                        query@,
                    )) || (exists|i: int|
                    0 <= i < self@.entries.len() && #[trigger] entry_matches(
                        self@.entries[i],
                        query@,
                    ) && !has_block(self@.markers_tags, i) && forall|y: int|
                        0 <= y < i ==> !entry_matches(self@.entries[y], query@)),
            },
    {
        let n = self.entries.len();
        let mut i: usize = 0;
        while i < n
            invariant
                0 <= i <= n == self@.entries.len(),
                output_inv(self@),
                forall|x: int| 0 <= x < i ==> !entry_matches(self@.entries[x], query@),
            decreases n - i,
        {
            match crate::bytes::find_sub(self.entries[i].message(), query) {
                Some(pos) => {
                    proof {
                        assert(crate::bytes::match_at(
                            self@.entries[i as int].message,
                            query@,
                            pos as int,
                        ));
                        assert(entry_matches(self@.entries[i as int], query@));
                        assert forall|y: int|
                            0 <= y < pos implies !crate::bytes::match_at(
                            self@.entries[i as int].message,
                            query@,
                            y,
                        ) by {}
                    }
                    match self.block_at(i) {
                        Some(b) => {
                            let marker_id = b.marker_id;
                            let ml = self.entries[i].message().len();
                            proof {
                                assert(pos + query@.len() <= ml);
                            }
                            let sel = MarkerSelection {
                                marker_id,
                                entry_id: i,
                                region: Some(
                                    ByteRange { start: pos, end: pos + query.len() },
                                ),
                            };
                            return Some((b, sel));
                        },
                        None => {
                            return None;
                        },
                    }
                },
                None => {
                    proof {
                        assert forall|pos: int|
                            !crate::bytes::match_at(
                            self@.entries[i as int].message,
                            query@,
                            pos,
                        ) by {}
                        assert(!entry_matches(self@.entries[i as int], query@));
                    }
                },
            }
            i = i + 1;
        }
        None
    }
}

/// Whether the entry's message contains `q` as a substring.
pub open spec fn entry_matches(e: EntryModel, q: Seq<u8>) -> bool {
    exists|pos: int| crate::bytes::match_at(e.message, q, pos)
}

} // verus!

verus! {

impl BuildOutput {
    /// The display line of an entry that shows no marker: a dimmed blank
    /// margin of the chunk width, a space, and the whole message.
    fn blank_line(e: &BuildEntry, w: usize) -> (r: crate::style::DisplayLine)
        ensures
            r@ == blank_line_spec(e@, w as int),
    {
        let mut spans: Vec<crate::style::TextSpan> = Vec::new();
        spans.push(
            crate::style::TextSpan { text: crate::bytes::spaces(w), style: TextStyle::dimmed() },
        );
        let mut sp: Vec<u8> = Vec::new();
        sp.push(32);
        spans.push(crate::style::TextSpan { text: sp, style: TextStyle::plain() });
        spans.push(
            crate::style::TextSpan {
                text: crate::bytes::clone_bytes(e.message()),
                style: TextStyle::plain(),
            },
        );
        let r = crate::style::DisplayLine { spans, style: TextStyle::plain() };
        proof {
            assert(r@.spans[1].text =~= seq![32u8]);
            assert(r@.spans =~= blank_line_spec(e@, w as int).spans);
        }
        r
    }

    /// The display line of one classified entry, with the chunk's margin
    /// width.
    fn make_line(e: &BuildEntry, w: usize) -> (r: crate::style::DisplayLine)
        ensures
            r@ == display_line_spec(e@, w as int),
    {
        match e.first_marker() {
            Some(m) => {
                match m.captured() {
                    Some(cm) => {
                        let mut spans: Vec<crate::style::TextSpan> = Vec::new();
                        spans.push(
                            crate::style::TextSpan {
                                text: crate::bytes::clone_bytes(&cm.text),
                                style: m.declared.style,
                            },
                        );
                        let mut sp: Vec<u8> = Vec::new();
                        sp.push(32);
                        spans.push(
                            crate::style::TextSpan { text: sp, style: TextStyle::plain() },
                        );
                        let ml = e.message.len();
                        let rest: Vec<u8> = if cm.range.end <= ml {
                            crate::bytes::subvec(&e.message, cm.range.end, ml)
                        } else {
                            Vec::new()
                        };
                        proof {
                            if cm.range.end <= ml {
                                assert(rest@ =~= e@.message.skip(cm.range.end as int));
                            } else {
                                assert(rest@ =~= Seq::<u8>::empty());
                            }
                        }
                        spans.push(
                            crate::style::TextSpan { text: rest, style: TextStyle::plain() },
                        );
                        let r = crate::style::DisplayLine { spans, style: TextStyle::plain() };
                        proof {
                            assert(r@.spans[1].text =~= seq![32u8]);
                            assert(r@.spans =~= display_line_spec(e@, w as int).spans);
                        }
                        r
                    },
                    None => Self::blank_line(e, w),
                }
            },
            None => Self::blank_line(e, w),
        }
    }
}

} // verus!

verus! {

impl BuildOutput {
    /// Prepare every unprepared entry: classify it against the rule
    /// snapshot, produce its display line, update the error / warning /
    /// note lists, emit an error event per new error, rebuild the marker
    /// index, auto-select the first new error when nothing was selected,
    /// and attach parsed locations to the blocks containing them.
    /// Yields whether there was anything to prepare.
    pub fn prepare(&mut self) -> (r: bool)
        requires
            output_inv(old(self)@),
        ensures
            final(self)@ == prepare_spec(old(self)@),
            r == (old(self)@.cursor < old(self)@.entries.len()),
            output_inv(final(self)@),
    {
        let total = self.entries.len();
        let c = self.cursor;
        if c >= total {
            return false;
        }
        let ghost o0 = self@;
        let ghost ce = classified_entries(o0.entries, c as int, o0.rule);
        let sel_none = match self.markers.selection() {
            Some(_) => false,
            None => true,
        };

        // Classification pass.
        let mut i: usize = c;
        while i < total
            invariant
                c <= i <= total,
                total == self.entries@.len(),
                o0 == old(self)@,
                c == o0.cursor,
                total == o0.entries.len(),
                ce == classified_entries(o0.entries, c as int, o0.rule),
                self.rule == old(self).rule,
                self.warnings == old(self).warnings,
                self.notes == old(self).notes,
                self.errors == old(self).errors,
                self.events == old(self).events,
                self.remove_noise == old(self).remove_noise,
                self.cursor == old(self).cursor,
                self.prepared == old(self).prepared,
                self.markers == old(self).markers,
                forall|x: int|
                    0 <= x < total ==> #[trigger] entries_view(self.entries@)[x] == (if c <= x < i {
                        ce[x]
                    } else {
                        o0.entries[x]
                    }),
            decreases total - i,
        {
            let ghost pre = entries_view(self.entries@);
            match crate::marker::Markers::prepare(&mut self.entries[i], &self.rule) {
                Ok(_) => {},
                Err(_) => {},
            }
            proof {
                assert(ce[i as int] == classify_entry(o0.entries[i as int], o0.rule));
                assert(self.entries@[i as int]@.tags == classify_tags(
                    pre[i as int].tags,
                    o0.rule.markers,
                    pre[i as int].message,
                ));
                assert forall|x: int|
                    0 <= x < total implies #[trigger] entries_view(self.entries@)[x] == (if c <= x
                    < i + 1 {
                    ce[x]
                } else {
                    o0.entries[x]
                }) by {
                    if x != i {
                        assert(entries_view(self.entries@)[x] == pre[x]);
                    }
                }
            }
            i = i + 1;
        }
        proof {
            assert(entries_view(self.entries@) =~= ce);
        }

        // Display-line pass, one chunk at a time.
        let cs: usize = (if total > 5 {
            total
        } else {
            5
        }) / 5;
        proof {
            assert(cs == chunk_size_spec(total as int));
            assert(cs >= 1);
        }
        let mut b0: usize = c;
        while b0 < total
            invariant
                c <= b0 <= total,
                total == self.entries@.len(),
                o0 == old(self)@,
                c == o0.cursor,
                total == o0.entries.len(),
                cs == chunk_size_spec(total as int),
                1 <= cs,
                b0 == total || (b0 - c) % (cs as int) == 0,
                entries_view(self.entries@) == ce,
                self.rule == old(self).rule,
                self.warnings == old(self).warnings,
                self.notes == old(self).notes,
                self.errors == old(self).errors,
                self.events == old(self).events,
                self.remove_noise == old(self).remove_noise,
                self.cursor == old(self).cursor,
                self.markers == old(self).markers,
                self.prepared@.map_values(|l: crate::style::DisplayLine| l@) == o0.prepared
                    + lines_in_range(ce, c as int, b0 as int),
            decreases total - b0,
        {
            let b1: usize = if total - b0 > cs {
                b0 + cs
            } else {
                total
            };
            let ghost k = (b0 - c) as int / cs as int;
            proof {
                vstd::arithmetic::div_mod::lemma_fundamental_div_mod((b0 - c) as int, cs as int);
                assert((b0 - c) as int == k * cs);
            }
            // Margin pass over the chunk.
            let mut w: usize = 0;
            let mut x: usize = b0;
            while x < b1
                invariant
                    b0 <= x <= b1 <= total,
                    total == self.entries@.len(),
                    entries_view(self.entries@) == ce,
                    w as int == batch_margin(ce, b0 as int, x as int),
                decreases b1 - x,
            {
                let cl: usize = match self.entries[x].first_marker() {
                    Some(m) => match m.captured() {
                        Some(cm) => cm.text.len(),
                        None => 0,
                    },
                    None => 0,
                };
                proof {
                    assert(self.entries@[x as int]@ == ce[x as int]);
                    assert(cl as int == cap_len(ce[x as int]));
                }
                if cl > w {
                    w = cl;
                }
                x = x + 1;
            }
            // Line pass over the chunk.
            let mut x: usize = b0;
            while x < b1
                invariant
                    b0 <= x <= b1 <= total,
                    total == self.entries@.len(),
                    o0 == old(self)@,
                    c == o0.cursor,
                    total == o0.entries.len(),
                    cs == chunk_size_spec(total as int),
                    1 <= cs,
                    (b0 - c) as int == k * cs,
                    0 <= k,
                    b1 as int == (if b0 + cs > total {
                        total as int
                    } else {
                        b0 + cs
                    }),
                    entries_view(self.entries@) == ce,
                    w as int == batch_margin(ce, b0 as int, b1 as int),
                    self.rule == old(self).rule,
                    self.warnings == old(self).warnings,
                    self.notes == old(self).notes,
                    self.errors == old(self).errors,
                    self.events == old(self).events,
                    self.remove_noise == old(self).remove_noise,
                    self.cursor == old(self).cursor,
                    self.markers == old(self).markers,
                    self.prepared@.map_values(|l: crate::style::DisplayLine| l@) == o0.prepared
                        + lines_in_range(ce, c as int, x as int),
                decreases b1 - x,
            {
                proof {
                    vstd::arithmetic::div_mod::lemma_fundamental_div_mod_converse(
                        (x - c) as int,
                        cs as int,
                        k,
                        (x - b0) as int,
                    );
                    assert(batch_lo(c as int, total as int, x as int) == b0 as int);
                    assert(batch_hi(c as int, total as int, x as int) == b1 as int);
                    assert(margin_for(ce, c as int, x as int) == batch_margin(
                        ce,
                        b0 as int,
                        b1 as int,
                    ));
                }
                let ghost pl = self.prepared@.map_values(|l: crate::style::DisplayLine| l@);
                let line = Self::make_line(&self.entries[x], w);
                proof {
                    assert(self.entries@[x as int]@ == ce[x as int]);
                    assert(line@ == display_line_spec(ce[x as int], margin_for(
                        ce,
                        c as int,
                        x as int,
                    )));
                }
                self.prepared.push(line);
                proof {
                    assert(self.prepared@.map_values(|l: crate::style::DisplayLine| l@) =~= pl.push(
                        line@,
                    ));
                    assert(lines_in_range(ce, c as int, x + 1) == lines_in_range(
                        ce,
                        c as int,
                        x as int,
                    ).push(display_line_spec(ce[x as int], margin_for(ce, c as int, x as int))));
                    assert(self.prepared@.map_values(|l: crate::style::DisplayLine| l@)
                        =~= o0.prepared + lines_in_range(ce, c as int, x + 1));
                }
                x = x + 1;
            }
            proof {
                if b1 < total {
                    assert((b1 - c) as int == (k + 1) * cs) by {
                        assert(b1 as int == b0 + cs);
                        assert((k + 1) * cs == k * cs + cs) by (nonlinear_arith);
                    }
                    vstd::arithmetic::div_mod::lemma_fundamental_div_mod_converse(
                        (b1 - c) as int,
                        cs as int,
                        k + 1,
                        0,
                    );
                }
            }
            b0 = b1;
        }

        // Counter, event and location pass.
        let mut first_err: Option<usize> = None;
        let mut locs: Vec<(usize, Location)> = Vec::new();
        let ghost lp = loc_pairs(ce, c as int, total as int);
        let mut i: usize = c;
        while i < total
            invariant
                c <= i <= total,
                total == self.entries@.len(),
                o0 == old(self)@,
                c == o0.cursor,
                total == o0.entries.len(),
                entries_view(self.entries@) == ce,
                lp == loc_pairs(ce, c as int, total as int),
                self.rule == old(self).rule,
                self.remove_noise == old(self).remove_noise,
                self.cursor == old(self).cursor,
                self.markers == old(self).markers,
                self.prepared@.map_values(|l: crate::style::DisplayLine| l@) == o0.prepared
                    + lines_in_range(ce, c as int, total as int),
                self.errors@ == o0.errors + ids_in_range(ce, c as int, i as int, BuildTagKind::Error),
                self.warnings@ == o0.warnings + ids_in_range(
                    ce,
                    c as int,
                    i as int,
                    BuildTagKind::Warning,
                ),
                self.notes@ == o0.notes + ids_in_range(ce, c as int, i as int, BuildTagKind::Note),
                self.events@ == o0.events + ids_in_range(
                    ce,
                    c as int,
                    i as int,
                    BuildTagKind::Error,
                ).map_values(|u: usize| BuildEvent::BuildError(u)),
                ids_in_range(ce, c as int, i as int, BuildTagKind::Error).len() > 0 ==> first_err
                    == Some(ids_in_range(ce, c as int, i as int, BuildTagKind::Error)[0]),
                ids_in_range(ce, c as int, i as int, BuildTagKind::Error).len() == 0 ==> first_err
                    is None,
                locs@.len() == loc_pairs(ce, c as int, i as int).len(),
                forall|y: int|
                    0 <= y < locs@.len() ==> (#[trigger] locs@[y]).0 == loc_pairs(
                        ce,
                        c as int,
                        i as int,
                    )[y].0 && locs@[y].1@ == loc_pairs(ce, c as int, i as int)[y].1,
            decreases total - i,
        {
            let ghost errs0 = ids_in_range(ce, c as int, i as int, BuildTagKind::Error);
            let ghost evs0 = self.events@;
            proof {
                assert(self.entries@[i as int]@ == ce[i as int]);
            }
            if self.entries[i].has_tag(BuildTagKind::Error) {
                self.events.push(BuildEvent::BuildError(i));
                self.errors.push(i);
                if first_err.is_none() {
                    first_err = Some(i);
                }
                proof {
                    assert(self.errors@ =~= o0.errors + ids_in_range(
                        ce,
                        c as int,
                        i + 1,
                        BuildTagKind::Error,
                    ));
                    assert(ids_in_range(ce, c as int, i + 1, BuildTagKind::Error) =~= errs0
                        + seq![i as usize]);
                    assert(self.events@ =~= o0.events + ids_in_range(
                        ce,
                        c as int,
                        i + 1,
                        BuildTagKind::Error,
                    ).map_values(|u: usize| BuildEvent::BuildError(u)));
                }
            } else {
                proof {
                    assert(ids_in_range(ce, c as int, i + 1, BuildTagKind::Error) =~= errs0);
                }
            }
            if self.entries[i].has_tag(BuildTagKind::Warning) {
                self.warnings.push(i);
                proof {
                    assert(self.warnings@ =~= o0.warnings + ids_in_range(
                        ce,
                        c as int,
                        i + 1,
                        BuildTagKind::Warning,
                    ));
                }
            } else {
                proof {
                    assert(ids_in_range(ce, c as int, i + 1, BuildTagKind::Warning)
                        =~= ids_in_range(ce, c as int, i as int, BuildTagKind::Warning));
                }
            }
            if self.entries[i].has_tag(BuildTagKind::Note) {
                self.notes.push(i);
                proof {
                    assert(self.notes@ =~= o0.notes + ids_in_range(
                        ce,
                        c as int,
                        i + 1,
                        BuildTagKind::Note,
                    ));
                }
            } else {
                proof {
                    assert(ids_in_range(ce, c as int, i + 1, BuildTagKind::Note) =~= ids_in_range(
                        ce,
                        c as int,
                        i as int,
                        BuildTagKind::Note,
                    ));
                }
            }
            let has_marker = match self.entries[i].first_marker() {
                Some(_) => true,
                None => false,
            };
            if !has_marker {
                match Self::extract_location(self.entries[i].message()) {
                    Ok(Some(loc)) => {
                        proof {
                            assert(entry_loc(ce[i as int]) == Some(loc@));
                        }
                        locs.push((i, loc));
                    },
                    _ => {
                        proof {
                            assert(entry_loc(ce[i as int]) is None);
                        }
                    },
                }
            } else {
                proof {
                    assert(entry_loc(ce[i as int]) is None);
                }
            }
            proof {
                assert(loc_pairs(ce, c as int, i + 1) =~= loc_pairs(ce, c as int, i as int)
                    + (match entry_loc(ce[i as int]) {
                    Some(l) => seq![(i as int, l)],
                    None => Seq::<(int, LocationModel)>::empty(),
                }));
            }
            i = i + 1;
        }

        self.cursor = total;

        // Rebuild the marker index from the classified entries.
        let m2 = Markers::from_entries(&self.entries);
        self.markers.tags = m2.tags;
        let ghost midx = marker_index_spec(ce);
        proof {
            assert(self.markers.tags@ == midx);
            lemma_lines_len(ce, c as int, total as int);
            assert forall|x: int|
                0 <= x < total implies tags_hygiene((#[trigger] entries_view(self.entries@)[x]).tags)
                by {
                if x >= c {
                    lemma_classify_hygiene(
                        o0.entries[x].tags,
                        o0.rule.markers,
                        o0.entries[x].message,
                    );
                }
            }
            assert(self@.entries.take(total as int) =~= self@.entries);
            assert(output_inv(self@));
        }
        let ghost errs = ids_in_range(ce, c as int, total as int, BuildTagKind::Error);

        // Auto-select the first new error when nothing was selected.
        if sel_none {
            match first_err {
                Some(e) => {
                    self.select_block_from_entry(e);
                },
                None => {},
            }
        }
        let ghost mid = self@;
        proof {
            assert(mid.selection == (if o0.selection is None && errs.len() > 0 {
                auto_select_spec(midx, errs[0] as int)
            } else {
                o0.selection
            }));
        }

        // Attach parsed locations to their blocks.
        let nl = locs.len();
        let mut kk: usize = 0;
        while kk < nl
            invariant
                0 <= kk <= nl == locs@.len(),
                nl == lp.len(),
                total == self.entries@.len(),
                total == ce.len(),
                mid.entries == ce,
                mid.markers_tags == midx,
                mid.cursor == total,
                midx == marker_index_spec(ce),
                forall|y: int|
                    0 <= y < locs@.len() ==> (#[trigger] locs@[y]).0 == lp[y].0 && locs@[y].1@
                        == lp[y].1,
                forall|x: int| 0 <= x < ce.len() ==> tags_hygiene((#[trigger] ce[x]).tags),
                self@ == (OutputModel {
                    entries: located_entries(ce, midx, lp.take(kk as int)),
                    ..mid
                }),
                output_inv(self@),
            decreases nl - kk,
        {
            let ghost base = located_entries(ce, midx, lp.take(kk as int));
            proof {
                lemma_located_preserves(ce, midx, lp.take(kk as int));
            }
            let ei = locs[kk].0;
            proof {
                lemma_marker_index(ce);
            }
            match self.block_range_at(ei) {
                Some(rg) => {
                    proof {
                        assert(has_block(midx, lp[kk as int].0));
                        assert(rg.start <= rg.end <= total) by {
                            let j = block_idx_of(midx, ei as int);
                            assert(is_block_idx(midx, ei as int, j));
                        }
                        assert(Seq::new(
                            total as nat,
                            |x: int|
                                if rg.start <= x < rg.start {
                                    set_loc(base[x], lp[kk as int].1)
                                } else {
                                    base[x]
                                },
                        ) =~= base);
                    }
                    let mut j: usize = rg.start;
                    while j < rg.end
                        invariant
                            rg.start <= j <= rg.end <= total,
                            total == self.entries@.len(),
                            kk < nl == locs@.len(),
                            nl == lp.len(),
                            base == located_entries(ce, midx, lp.take(kk as int)),
                            base.len() == total,
                            locs@[kk as int].0 == lp[kk as int].0 && locs@[kk as int].1@
                                == lp[kk as int].1,
                            has_block(midx, lp[kk as int].0),
                            rg.start as int == block_bounds(midx, total as int, lp[kk as int].0).0,
                            rg.end as int == block_bounds(midx, total as int, lp[kk as int].0).1,
                            self@ == (OutputModel {
                                entries: Seq::new(
                                    total as nat,
                                    |x: int|
                                        if rg.start <= x < j {
                                            set_loc(base[x], lp[kk as int].1)
                                        } else {
                                            base[x]
                                        },
                                ),
                                ..mid
                            }),
                        decreases rg.end - j,
                    {
                        let ghost pre = self@.entries;
                        let t = BuildTag::location(
                            crate::bytes::clone_bytes(&locs[kk].1.path),
                            locs[kk].1.line,
                            locs[kk].1.column,
                        );
                        proof {
                            assert(t@ == loc_tag_model(lp[kk as int].1));
                        }
                        self.entries[j].set_tag(t);
                        proof {
                            assert(pre[j as int] == base[j as int]);
                            assert(self@.entries =~= pre.update(
                                j as int,
                                set_loc(base[j as int], lp[kk as int].1),
                            ));
                            assert(self@.entries =~= Seq::new(
                                total as nat,
                                |x: int|
                                    if rg.start <= x < j + 1 {
                                        set_loc(base[x], lp[kk as int].1)
                                    } else {
                                        base[x]
                                    },
                            ));
                        }
                        j = j + 1;
                    }
                    proof {
                        assert(self@.entries =~= apply_loc(
                            base,
                            midx,
                            lp[kk as int].0,
                            lp[kk as int].1,
                        ));
                    }
                },
                None => {
                    proof {
                        assert(!has_block(midx, lp[kk as int].0));
                        assert(self@.entries == apply_loc(
                            base,
                            midx,
                            lp[kk as int].0,
                            lp[kk as int].1,
                        ));
                    }
                },
            }
            proof {
                lemma_located_push(ce, midx, lp.take(kk as int), lp[kk as int]);
                assert(lp.take(kk + 1) =~= lp.take(kk as int).push(lp[kk as int]));
                assert(self@.entries == located_entries(ce, midx, lp.take(kk + 1)));
                lemma_located_preserves(ce, midx, lp.take(kk + 1));
                lemma_midx_pointwise(located_entries(ce, midx, lp.take(kk + 1)), ce);
                assert(self@.entries.take(total as int) =~= self@.entries);
                assert(output_inv(self@));
            }
            kk = kk + 1;
        }
        proof {
            assert(lp.take(nl as int) =~= lp);
            assert(self@.entries == located_entries(ce, midx, lp));
            assert(self@ == prepare_spec(o0)) by {
                assert(prepare_spec(o0).entries == located_entries(ce, midx, lp));
                assert(prepare_spec(o0).prepared == o0.prepared + lines_in_range(
                    ce,
                    c as int,
                    total as int,
                ));
                assert(prepare_spec(o0).errors == o0.errors + errs);
                assert(prepare_spec(o0).markers_tags == midx);
            }
        }
        true
    }
}

} // verus!
