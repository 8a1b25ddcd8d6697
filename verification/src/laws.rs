//! The library's global laws, stated and proved over the specification
//! functions the executable contracts are written in.

use vstd::prelude::*;

use crate::entry::EntryModel;
use crate::marker::{is_block_idx, lemma_block_idx_unique, marker_index_spec, midx_sorted,
    next_selection_spec, select_spec, MarkerSelection};
use crate::output::{has_block, lemma_marker_index, prepare_spec, OutputModel};
use crate::rule::RuleModel;
use crate::tag::BuildTagKind;

verus! {

/// Append-only preparation: preparing never rewrites a display line that
/// was already prepared; new lines are only appended after them.
pub proof fn lemma_prepare_append_only(o: OutputModel)
    requires
        o.prepared.len() == o.cursor,
    ensures
        prepare_spec(o).prepared.len() >= o.prepared.len(),
        forall|i: int|
            0 <= i < o.cursor ==> #[trigger] prepare_spec(o).prepared[i] == o.prepared[i],
{
    if o.cursor < o.entries.len() {
        assert(prepare_spec(o).prepared.len() >= o.prepared.len());
        assert forall|i: int|
            0 <= i < o.cursor implies #[trigger] prepare_spec(o).prepared[i] == o.prepared[i] by {
            assert(prepare_spec(o).prepared[i] == o.prepared[i]);
        }
    }
}

/// Marker monotonicity: the marker index derived from any entry sequence
/// is strictly increasing in entry id.
pub proof fn lemma_marker_monotonic(es: Seq<EntryModel>)
    requires
        es.len() <= usize::MAX,
    ensures
        midx_sorted(marker_index_spec(es)),
{
    lemma_marker_index(es);
}

/// Block existence: when at least one marker exists and the entry does
/// not lie before the first marker, some block contains it.
pub proof fn lemma_block_exists(midx: Seq<(usize, BuildTagKind)>, e: int)
    requires
        midx_sorted(midx),
        midx.len() > 0,
        midx[0].0 <= e,
    ensures
        has_block(midx, e),
    decreases midx.len(),
{
    if midx[midx.len() - 1].0 <= e {
        assert(is_block_idx(midx, e, midx.len() - 1));
    } else {
        let d = midx.drop_last();
        assert(d.len() > 0) by {
            assert(midx[0].0 <= e < midx[midx.len() - 1].0);
        }
        assert forall|i: int, j: int|
            0 <= i < j < d.len() implies (#[trigger] d[i]).0 < (#[trigger] d[j]).0 by {
            assert(d[i] == midx[i] && d[j] == midx[j]);
        }
        assert(d[0] == midx[0]);
        lemma_block_exists(d, e);
        let j = choose|j: int| is_block_idx(d, e, j);
        assert(is_block_idx(midx, e, j)) by {
            assert(d[j] == midx[j]);
            if j + 1 < d.len() {
                assert(d[j + 1] == midx[j + 1]);
            } else {
                assert(j == d.len() - 1);
                assert(e < midx[j + 1].0);
            }
        }
    }
}

/// Block cover: every marker's entry starts exactly one block, and every
/// entry at or after the first marker lies in exactly one block.  Entries
/// before the first marker belong to no block.
pub proof fn lemma_block_cover(midx: Seq<(usize, BuildTagKind)>, e: int)
    requires
        midx_sorted(midx),
        midx.len() > 0,
    ensures
        forall|j: int| 0 <= j < midx.len() ==> is_block_idx(midx, (#[trigger] midx[j]).0 as int, j),
        midx[0].0 <= e ==> has_block(midx, e),
        forall|j1: int, j2: int|
            is_block_idx(midx, e, j1) && is_block_idx(midx, e, j2) ==> j1 == j2,
        e < midx[0].0 ==> !has_block(midx, e),
{
    assert forall|j: int|
        0 <= j < midx.len() implies is_block_idx(midx, (#[trigger] midx[j]).0 as int, j) by {
        if j + 1 < midx.len() {
            assert(midx[j].0 < midx[j + 1].0);
        }
    }
    if midx[0].0 <= e {
        lemma_block_exists(midx, e);
    }
    assert forall|j1: int, j2: int|
        is_block_idx(midx, e, j1) && is_block_idx(midx, e, j2) implies j1 == j2 by {
        lemma_block_idx_unique(midx, e, j1, j2);
    }
    if e < midx[0].0 {
        crate::output::lemma_no_block(midx, e);
    }
}

/// Selection wellformedness: whenever selecting yields a selection, its
/// marker id indexes the marker list and its entry id is the first entry
/// of that marker's block.
pub proof fn lemma_selection_wf(
    tags: Seq<(usize, BuildTagKind)>,
    id: int,
    region: Option<crate::range::ByteRange>,
)
    requires
        midx_sorted(tags),
        0 <= id,
        tags.len() <= usize::MAX,
    ensures
        match select_spec(tags, id, region) {
            Some(s) => s.marker_id < tags.len() && s.entry_id == tags[s.marker_id as int].0
                && is_block_idx(tags, s.entry_id as int, s.marker_id as int),
            None => tags.len() == 0,
        },
{
    match select_spec(tags, id, region) {
        Some(s) => {
            assert(s.marker_id < tags.len());
            if s.marker_id + 1 < tags.len() {
                assert(tags[s.marker_id as int].0 < tags[s.marker_id + 1].0);
            }
        },
        None => {},
    }
}

/// Navigation idempotence, first half: selecting the first marker twice
/// is the same as selecting it once — the second application starts from
/// the state the first one left and reproduces it exactly.
pub proof fn lemma_select_first_idempotent(m: crate::marker::Markers)
    ensures
        crate::marker::spec_select_first(crate::marker::spec_select_first(m))
            == crate::marker::spec_select_first(m),
{
}

/// Navigation idempotence, second half: stepping the selection forward
/// saturates — once it reaches the last marker, stepping forward again
/// leaves it unchanged.
pub proof fn lemma_select_next_saturating(
    tags: Seq<(usize, BuildTagKind)>,
    sel: Option<MarkerSelection>,
)
    requires
        tags.len() > 0,
    ensures
        ({
            let s1 = next_selection_spec(tags, sel);
            s1 matches Some(s) && (s.marker_id == tags.len() - 1 ==> next_selection_spec(
                tags,
                s1,
            ) == s1)
        }),
{
}

/// Marker monotonicity holds of the preparer's own output: the marker
/// index it rebuilds is strictly increasing in entry id.
pub proof fn lemma_prepare_markers_sorted(o: OutputModel)
    requires
        crate::output::output_inv(o),
        o.entries.len() <= usize::MAX,
    ensures
        midx_sorted(prepare_spec(o).markers_tags),
        midx_sorted(marker_index_spec(o.entries.take(o.cursor as int))),
{
    if o.cursor < o.entries.len() {
        lemma_marker_index(
            crate::output::classified_entries(o.entries, o.cursor as int, o.rule),
        );
    }
    lemma_marker_index(o.entries.take(o.cursor as int));
}

/// The selection the preparer makes on the first new error is well
/// formed: its marker id indexes the rebuilt marker index and its entry
/// id is the first entry of that marker's block.
pub proof fn lemma_auto_select_wf(midx: Seq<(usize, BuildTagKind)>, e: int)
    requires
        midx_sorted(midx),
        midx.len() <= usize::MAX,
    ensures
        match crate::output::auto_select_spec(midx, e) {
            Some(s) => s.marker_id < midx.len() && s.entry_id == midx[s.marker_id as int].0
                && is_block_idx(midx, s.entry_id as int, s.marker_id as int),
            None => midx.len() == 0,
        },
{
    let id = if crate::output::has_block(midx, e) {
        crate::output::block_idx_of(midx, e)
    } else {
        0
    };
    if crate::output::has_block(midx, e) {
        let j = choose|j: int| is_block_idx(midx, e, j);
        lemma_block_idx_unique(midx, e, j, crate::output::block_idx_of(midx, e));
    }
    lemma_selection_wf(midx, id, None);
}

/// Rule snapshot: preparing reads only the rule snapshotted in the store,
/// and whatever rule that snapshot holds, the display lines that were
/// already prepared stay exactly as they are.
pub proof fn lemma_rule_snapshot(o: OutputModel, r: RuleModel)
    requires
        o.prepared.len() == o.cursor,
    ensures
        forall|i: int|
            0 <= i < o.cursor ==> #[trigger] prepare_spec(
                (OutputModel { rule: r, ..o }),
            ).prepared[i] == o.prepared[i],
{
    lemma_prepare_append_only(OutputModel { rule: r, ..o });
}

} // verus!
