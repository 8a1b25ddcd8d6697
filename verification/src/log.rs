//! Display-side view of the prepared lines: one log entry per output
//! line, and the scrollable, filterable list the front end renders.

use vstd::prelude::*;

use crate::style::{DisplayLine, LineModel, TextColor, TextStyle};
use crate::tag::{tag_index, BuildTag, BuildTagKind, TagModel};

verus! {

/// One renderable log row: the formatted line and the tags of its entry.
#[derive(Clone, Debug, PartialEq)]
pub struct LogEntry {
    pub line: DisplayLine,
    pub tags: Vec<BuildTag>,
}

/// Mathematical view of a [`LogEntry`].
pub ghost struct LogEntryModel {
    pub line: LineModel,
    pub tags: Seq<TagModel>,
}

impl View for LogEntry {
    type V = LogEntryModel;

    open spec fn view(&self) -> LogEntryModel {
        LogEntryModel { line: self.line@, tags: self.tags@.map_values(|t: BuildTag| t@) }
    }
}

impl LogEntry {
    /// Build a log row from a line and its entry's tags.
    pub fn new(line: DisplayLine, tags: Vec<BuildTag>) -> (r: Self)
        ensures
            r@ == (LogEntryModel { line: line@, tags: tags@.map_values(|t: BuildTag| t@) }),
    {
        LogEntry { line, tags }
    }

    /// The formatted line.
    pub fn line(&self) -> (r: &DisplayLine)
        ensures
            r == &self.line,
    {
        &self.line
    }

    /// The formatted line, mutably.
    pub fn line_mut(&mut self) -> (r: &mut DisplayLine)
        ensures
            *r == old(self).line,
            final(self).line == *final(r),
            final(self).tags == old(self).tags,
    {
        &mut self.line
    }
}

/// Whether a row passes the display filter.
pub open spec fn row_visible(e: LogEntryModel, filter: Option<BuildTagKind>) -> bool {
    match filter {
        Some(k) => tag_index(e.tags, k) >= 0,
        None => true,
    }
}

/// The lines of the first `hi` rows that pass the filter, in order.
pub open spec fn visible_in_range(
    es: Seq<LogEntryModel>,
    filter: Option<BuildTagKind>,
    hi: int,
) -> Seq<LineModel>
    decreases hi,
{
    if hi <= 0 {
        Seq::empty()
    } else {
        visible_in_range(es, filter, hi - 1) + if row_visible(es[hi - 1], filter) {
            seq![es[hi - 1].line]
        } else {
            Seq::<LineModel>::empty()
        }
    }
}

/// The scrollable log pane: its rows, scroll offset, and an optional
/// display filter that hides rows without a tag of the chosen kind.
#[derive(Clone, Debug, PartialEq)]
pub struct LogView {
    pub scroll: usize,
    pub entries: Vec<LogEntry>,
    pub filter: Option<BuildTagKind>,
}

impl LogView {
    /// An empty pane.
    pub fn new() -> (r: Self)
        ensures
            r.scroll == 0,
            r.entries@.len() == 0,
            r.filter is None,
    {
        LogView { scroll: 0, entries: Vec::new(), filter: None }
    }

    /// The pane with its scroll offset replaced.
    pub fn with_scroll(self, v: usize) -> (r: Self)
        ensures
            r == (LogView { scroll: v, ..self }),
    {
        LogView { scroll: v, ..self }
    }

    /// The pane with a display filter set.
    pub fn with_filter(self, f: BuildTagKind) -> (r: Self)
        ensures
            r == (LogView { filter: Some(f), ..self }),
    {
        LogView { filter: Some(f), ..self }
    }

    /// The pane with its rows replaced.
    pub fn with_content(self, content: Vec<LogEntry>) -> (r: Self)
        ensures
            r == (LogView { entries: content, ..self }),
    {
        LogView { entries: content, ..self }
    }

    /// Replace the display filter.
    pub fn set_filter(&mut self, f: Option<BuildTagKind>)
        ensures
            final(self).filter == f,
            final(self).entries == old(self).entries,
            final(self).scroll == old(self).scroll,
    {
        self.filter = f;
    }

    /// The lines to draw: every row, or only the rows carrying a tag of
    /// the filtered kind; hidden rows are not renumbered, only skipped.
    pub fn visible_lines(&self) -> (r: Vec<DisplayLine>)
        ensures
            r@.map_values(|l: DisplayLine| l@) == visible_in_range(
                self.entries@.map_values(|e: LogEntry| e@),
                self.filter,
                self.entries@.len() as int,
            ),
    {
        let ghost ev = self.entries@.map_values(|e: LogEntry| e@);
        let mut r: Vec<DisplayLine> = Vec::new();
        let n = self.entries.len();
        let mut i: usize = 0;
        while i < n
            invariant
                0 <= i <= n == self.entries@.len(),
                ev == self.entries@.map_values(|e: LogEntry| e@),
                r@.map_values(|l: DisplayLine| l@) == visible_in_range(ev, self.filter, i as int),
            decreases n - i,
        {
            let ghost before = r@.map_values(|l: DisplayLine| l@);
            let keep = match self.filter {
                Some(k) => has_tag_of(&self.entries[i].tags, k),
                None => true,
            };
            proof {
                assert(ev[i as int] == self.entries@[i as int]@);
            }
            if keep {
                let line = self.entries[i].line.duplicate();
                r.push(line);
                proof {
                    assert(r@.map_values(|l: DisplayLine| l@) =~= before.push(ev[i as int].line));
                    assert(r@.map_values(|l: DisplayLine| l@) =~= visible_in_range(
                        ev,
                        self.filter,
                        i + 1,
                    ));
                }
            } else {
                proof {
                    assert(visible_in_range(ev, self.filter, i + 1) =~= visible_in_range(
                        ev,
                        self.filter,
                        i as int,
                    ));
                }
            }
            i = i + 1;
        }
        r
    }
}

/// Whether the tag list holds a tag of kind `k`.
fn has_tag_of(tags: &Vec<BuildTag>, k: BuildTagKind) -> (r: bool)
    ensures
        r == (tag_index(tags@.map_values(|t: BuildTag| t@), k) >= 0),
{
    let n = tags.len();
    let ghost tv = tags@.map_values(|t: BuildTag| t@);
    let mut i: usize = 0;
    while i < n
        invariant
            0 <= i <= n == tags@.len(),
            tv == tags@.map_values(|t: BuildTag| t@),
            forall|j: int| 0 <= j < i ==> tv[j].kind != k,
        decreases n - i,
    {
        if tags[i].kind == k {
            proof {
                crate::tag::lemma_tag_index_is(tv, k, i as int);
            }
            return true;
        }
        i = i + 1;
    }
    proof {
        crate::tag::lemma_tag_index_none(tv, k);
    }
    false
}

/// Saturating subtraction on scroll offsets.
pub open spec fn sat_sub(a: int, b: int) -> int {
    if a >= b {
        a - b
    } else {
        0
    }
}

/// The scroll offset after one navigation key, over `total` visible rows
/// in a window `height` rows tall: line steps and page steps, saturating
/// at both ends.
pub fn scroll_after_key(key: crate::search_ui::Key, scroll: usize, total: usize, height: usize)
    -> (r: usize)
    ensures
        r as int == match key {
            crate::search_ui::Key::Character(ch) => if ch == 106 {
                if scroll < sat_sub(total as int, height as int) {
                    scroll + 1
                } else {
                    scroll as int
                }
            } else if ch == 107 {
                sat_sub(scroll as int, 1)
            } else {
                scroll as int
            },
            crate::search_ui::Key::PageUp => sat_sub(scroll as int, height as int),
            crate::search_ui::Key::PageDown => if scroll < sat_sub(
                total as int,
                height as int,
            ) {
                scroll + height
            } else {
                scroll as int
            },
            _ => scroll as int,
        },
{
    let limit = if total >= height {
        total - height
    } else {
        0
    };
    match key {
        crate::search_ui::Key::Character(ch) => {
            if ch == 106 {
                if scroll < limit {
                    scroll + 1
                } else {
                    scroll
                }
            } else if ch == 107 {
                if scroll > 0 {
                    scroll - 1
                } else {
                    0
                }
            } else {
                scroll
            }
        },
        crate::search_ui::Key::PageUp => {
            if scroll >= height {
                scroll - height
            } else {
                0
            }
        },
        crate::search_ui::Key::PageDown => {
            if scroll < limit {
                scroll + height
            } else {
                scroll
            }
        },
        _ => scroll,
    }
}

/// How many rows of margin the selected entry keeps from the window's
/// edges when the view follows it.
pub const SCROLL_MARGIN: usize = 4;

/// The scroll offset that keeps the given entry visible with the margin:
/// when the entry lies within the margin of the top edge (or above it),
/// scroll up so the margin stands above it; when it lies within the
/// margin of the bottom edge (or below it), scroll down so the margin
/// stands below it; otherwise stay put.
pub fn scroll_to_entry(entry_id: usize, scroll: usize, height: usize) -> (r: usize)
    ensures
        r as int == (if entry_id < scroll + SCROLL_MARGIN {
            sat_sub(entry_id as int, SCROLL_MARGIN as int)
        } else if entry_id + SCROLL_MARGIN >= scroll + height {
            if entry_id + SCROLL_MARGIN + 1 - height > usize::MAX {
                usize::MAX as int
            } else {
                entry_id + SCROLL_MARGIN + 1 - height
            }
        } else {
            scroll as int
        }),
{
    if entry_id < scroll || entry_id - scroll < SCROLL_MARGIN {
        if entry_id >= SCROLL_MARGIN {
            entry_id - SCROLL_MARGIN
        } else {
            0
        }
    } else if height <= SCROLL_MARGIN || entry_id - scroll >= height - SCROLL_MARGIN {
        if height > SCROLL_MARGIN {
            // the window is taller than the margin: place the entry one
            // margin above the bottom edge
            let back = height - SCROLL_MARGIN - 1;
            if entry_id > back {
                entry_id - back
            } else {
                0
            }
        } else {
            // a window no taller than the margin cannot hold the margin;
            // move just past the entry, saturating at the end
            let fwd = SCROLL_MARGIN + 1 - height;
            if entry_id <= usize::MAX - fwd {
                entry_id + fwd
            } else {
                usize::MAX
            }
        }
    } else {
        scroll
    }
}

/// The line-wide highlight put on the selected row.
pub open spec fn highlight_spec(l: LineModel) -> LineModel {
    LineModel {
        spans: l.spans,
        style: TextStyle { bg: TextColor::LightBlue, ..l.style },
    }
}

} // verus!
