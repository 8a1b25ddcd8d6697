//! A diagnostic block: the contiguous run of entries that starts at one
//! marker and ends just before the next marker (or at the end of the log).

use vstd::prelude::*;

use crate::entry::{entries_view, BuildEntry, EntryModel};
use crate::marker::{MarkerRef, MarkerRefModel};
use crate::range::ByteRange;

verus! {

/// A block: the marker that starts it, its id in the marker index, the
/// entry range `[start, end)`, and copies of the contained entries.
#[derive(Clone, Debug, PartialEq)]
pub struct MarkedBlock {
    pub marker_id: usize,
    pub marker: MarkerRef,
    pub entry_range: ByteRange,
    pub entries: Vec<BuildEntry>,
}

/// Mathematical view of a [`MarkedBlock`].
pub ghost struct BlockModel {
    pub marker_id: usize,
    pub marker: MarkerRefModel,
    pub entry_range: ByteRange,
    pub entries: Seq<EntryModel>,
}

impl View for MarkedBlock {
    type V = BlockModel;

    open spec fn view(&self) -> BlockModel {
        BlockModel {
            marker_id: self.marker_id,
            marker: self.marker@,
            entry_range: self.entry_range,
            entries: entries_view(self.entries@),
        }
    }
}

/// The messages of a block's entries joined with newlines.
pub open spec fn joined_content(es: Seq<EntryModel>) -> Seq<u8>
    decreases es.len(),
{
    if es.len() == 0 {
        Seq::empty()
    } else if es.len() == 1 {
        es[0].message
    } else {
        joined_content(es.drop_last()) + seq![10u8] + es.last().message
    }
}

impl MarkedBlock {
    /// Build a block from its parts.
    pub fn new(
        marker_id: usize,
        marker: MarkerRef,
        entry_range: ByteRange,
        entries: Vec<BuildEntry>,
    ) -> (r: Self)
        ensures
            r@ == (BlockModel {
                marker_id,
                marker: marker@,
                entry_range,
                entries: entries_view(entries@),
            }),
    {
        MarkedBlock { marker_id, marker, entry_range, entries }
    }

    /// Copies of the entries' messages, one per line.
    pub fn lines(&self) -> (r: Vec<Vec<u8>>)
        ensures
            r@.len() == self@.entries.len(),
            forall|i: int|
                0 <= i < r@.len() ==> (#[trigger] r@[i])@ == self@.entries[i].message,
    {
        let mut r: Vec<Vec<u8>> = Vec::new();
        let n = self.entries.len();
        let mut i: usize = 0;
        while i < n
            invariant
                0 <= i <= n == self.entries@.len(),
                r@.len() == i,
                forall|j: int| 0 <= j < i ==> (#[trigger] r@[j])@ == self@.entries[j].message,
            decreases n - i,
        {
            let line = crate::bytes::clone_bytes(self.entries[i].message());
            r.push(line);
            i = i + 1;
        }
        r
    }

    /// The messages of the contained entries joined with newlines.
    pub fn content(&self) -> (r: Vec<u8>)
        ensures
            r@ == joined_content(self@.entries),
    {
        let mut r: Vec<u8> = Vec::new();
        let n = self.entries.len();
        let mut i: usize = 0;
        while i < n
            invariant
                0 <= i <= n == self.entries@.len(),
                r@ == joined_content(self@.entries.take(i as int)),
            decreases n - i,
        {
            proof {
                assert(self@.entries.take(i + 1).drop_last() =~= self@.entries.take(i as int));
                assert(self@.entries.take(i + 1).last() == self@.entries[i as int]);
            }
            if i > 0 {
                r.push(10);
            }
            let mut part = crate::bytes::clone_bytes(self.entries[i].message());
            r.append(&mut part);
            proof {
                if i == 0 {
                    assert(r@ =~= joined_content(self@.entries.take(1)));
                } else {
                    assert(r@ =~= joined_content(self@.entries.take(i + 1)));
                }
            }
            i = i + 1;
        }
        proof {
            assert(self@.entries.take(n as int) =~= self@.entries);
        }
        r
    }

    /// The marker that starts the block.
    pub fn marker(&self) -> (r: &MarkerRef)
        ensures
            r == &self.marker,
    {
        &self.marker
    }

    /// The marker, mutably.
    pub fn marker_mut(&mut self) -> (r: &mut MarkerRef)
        ensures
            *r == old(self).marker,
            final(self).marker == *final(r),
            final(self).marker_id == old(self).marker_id,
            final(self).entry_range == old(self).entry_range,
            final(self).entries == old(self).entries,
    {
        &mut self.marker
    }

    /// The entry range `[start, end)` of the block.
    pub fn range(&self) -> (r: ByteRange)
        ensures
            r == self.entry_range,
    {
        self.entry_range
    }

    /// The entry range, mutably.
    pub fn range_mut(&mut self) -> (r: &mut ByteRange)
        ensures
            *r == old(self).entry_range,
            final(self).entry_range == *final(r),
            final(self).marker_id == old(self).marker_id,
            final(self).marker == old(self).marker,
            final(self).entries == old(self).entries,
    {
        &mut self.entry_range
    }

    /// The block's id in the marker index.
    pub fn marker_id(&self) -> (r: usize)
        ensures
            r == self.marker_id,
    {
        self.marker_id
    }

    /// The block's id, mutably.
    pub fn marker_id_mut(&mut self) -> (r: &mut usize)
        ensures
            *r == old(self).marker_id,
            final(self).marker_id == *final(r),
            final(self).marker == old(self).marker,
            final(self).entry_range == old(self).entry_range,
            final(self).entries == old(self).entries,
    {
        &mut self.marker_id
    }

    /// The contained entries.
    pub fn entries(&self) -> (r: &Vec<BuildEntry>)
        ensures
            r == &self.entries,
    {
        &self.entries
    }

    /// The contained entries, mutably.
    pub fn entries_mut(&mut self) -> (r: &mut Vec<BuildEntry>)
        ensures
            *r == old(self).entries,
            final(self).entries == *final(r),
            final(self).marker_id == old(self).marker_id,
            final(self).marker == old(self).marker,
            final(self).entry_range == old(self).entry_range,
    {
        &mut self.entries
    }
}

} // verus!
