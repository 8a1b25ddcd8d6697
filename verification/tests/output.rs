//! The output store: preparation, block lookup, search, events and
//! auto-selection.

use cargo_nbuild::entry::BuildEntry;
use cargo_nbuild::event::BuildEvent;
use cargo_nbuild::marker::{CapturedMarker, MarkerRef, MarkerSelection};
use cargo_nbuild::origin::Origin;
use cargo_nbuild::output::BuildOutput;
use cargo_nbuild::range::ByteRange;
use cargo_nbuild::rule::{Rule, RuleStore};
use cargo_nbuild::tag::{BuildTag, BuildTagKind};

fn b(s: &str) -> Vec<u8> {
    s.as_bytes().to_vec()
}

fn active() -> Rule {
    RuleStore::new().active_rule().expect("active rule")
}

fn build_from(text: &str) -> BuildOutput {
    let mut build = BuildOutput::new(active()).with_noise_removed(false);
    for line in text.split('\n') {
        build.push(BuildEntry::new(line.as_bytes().to_vec(), Origin::default()));
    }
    build
}

const WARNING_SAMPLE: &str = r#"warning: field `batch_id` is never read
   --> src/lib\build.rs:450:7
    |
449 |     struct PreparedEntry<'a> {
    |            ------------- field in this struct
450 |       batch_id: usize,
    |       ^^^^^^^^
    |
    = note: `#[warn(dead_code)]` on by default"#;

const TWO_MARKER_SAMPLE: &str = r#"warning: field `batch_id` is never read
    blasdf
    asdf asdf asdf
    adsf s
    error: test error
    blasdf asdfl alsdf
    asdfasdf"#;

#[test]
fn output_prepare() {
    let rule = active();
    let mut build = build_from(WARNING_SAMPLE);
    build.prepare();
    let n = build.entries().len();
    let lines = build.display();
    assert_eq!(n, lines.len());
    assert_eq!(
        build.entries()[0],
        BuildEntry::new(b("warning: field `batch_id` is never read"), Origin::default())
            .with_tags(vec![
                BuildTag::warning(&rule, ByteRange::new(0, 8), b("warning:"))
                    .expect("invalid warning marker"),
                BuildTag::location(b("src/lib\\build.rs"), Some(450), Some(7)),
            ])
            .with_created_at(build.entries()[0].created_at())
    );
}

#[test]
fn build_prepare() {
    let rule = active();
    let mut build = build_from(WARNING_SAMPLE);
    build.prepare();
    let n = build.entries().len();
    let lines = build.display();
    assert_eq!(n, lines.len());
    assert_eq!(
        build.entries()[0],
        BuildEntry::new(b("warning: field `batch_id` is never read"), Origin::default())
            .with_tags(vec![
                BuildTag::warning(&rule, ByteRange::new(0, 8), b("warning:")).unwrap(),
                BuildTag::location(b("src/lib\\build.rs"), Some(450), Some(7)),
            ])
            .with_created_at(build.entries()[0].created_at())
    );
}

#[test]
fn output_block_range_at() {
    let mut build = build_from(TWO_MARKER_SAMPLE);
    build.prepare();
    assert_eq!(build.block_range_at(1), Some(ByteRange::new(0, 4)));
    assert_eq!(build.block_range_at(5), Some(ByteRange::new(4, 7)));
}

#[test]
fn build_block_range_at() {
    let mut build = build_from(TWO_MARKER_SAMPLE);
    build.prepare();
    assert_eq!(build.block_range_at(1), Some(ByteRange::new(0, 4)));
    assert_eq!(build.block_range_at(5), Some(ByteRange::new(4, 7)));
}

#[test]
fn output_block_at() {
    let store = RuleStore::new();
    let mut build = build_from(TWO_MARKER_SAMPLE);
    build.prepare();
    let first = build.block_at(1).expect("warning block");
    assert_eq!(first.marker_id(), 0);
    assert_eq!(first.range(), ByteRange::new(0, 4));
    assert_eq!(
        first.marker(),
        &MarkerRef::known(
            &store,
            BuildTagKind::Warning,
            Some(CapturedMarker::new(0, b("warning:"))),
        )
    );
    assert_eq!(first.entries(), &build.entries()[0..4].to_vec());
    let second = build.block_at(5).expect("error block");
    assert_eq!(second.marker_id(), 1);
    assert_eq!(second.range(), ByteRange::new(4, 7));
    assert_eq!(
        second.marker(),
        &MarkerRef::known(
            &store,
            BuildTagKind::Error,
            Some(CapturedMarker::new(4, b("error:"))),
        )
    );
    assert_eq!(second.entries(), &build.entries()[4..7].to_vec());
}

#[test]
fn build_block_at() {
    let store = RuleStore::new();
    let mut build = build_from(TWO_MARKER_SAMPLE);
    build.prepare();
    assert_eq!(
        build.block_at(1),
        Some(cargo_nbuild::block::MarkedBlock::new(
            0,
            MarkerRef::known(
                &store,
                BuildTagKind::Warning,
                Some(CapturedMarker::new(0, b("warning:"))),
            ),
            ByteRange::new(0, 4),
            build.entries()[0..4].to_vec(),
        ))
    );
    assert_eq!(
        build.block_at(5),
        Some(cargo_nbuild::block::MarkedBlock::new(
            1,
            MarkerRef::known(
                &store,
                BuildTagKind::Error,
                Some(CapturedMarker::new(4, b("error:"))),
            ),
            ByteRange::new(4, 7),
            build.entries()[4..7].to_vec(),
        ))
    );
}

const PANIC_SAMPLE: &str = r#"   Compiling demo v0.1.0
error: process didn't exit successfully
  (exit code: 101)
stderr output follows
  ...
  ...
    thread main panicked at 'oops'"#;

#[test]
fn search() {
    let store = RuleStore::new();
    let mut build = build_from(PANIC_SAMPLE);
    build.prepare();
    assert_eq!(
        build.search(&b("panic")),
        Some((
            cargo_nbuild::block::MarkedBlock::new(
                0,
                MarkerRef::known(
                    &store,
                    BuildTagKind::Error,
                    Some(CapturedMarker::new(0, b("error:"))),
                ),
                ByteRange::new(1, 7),
                build.entries()[1..7].to_vec(),
            ),
            MarkerSelection::new(0, 6, Some(ByteRange::new(16, 21))),
        ))
    );
}

#[test]
fn search_miss() {
    let mut build = build_from(TWO_MARKER_SAMPLE);
    build.prepare();
    assert_eq!(build.search(&b("no such text")), None);
}

#[test]
fn warning_block_gets_location() {
    // the location parsed on the second line spreads over the whole block
    let mut build = build_from(WARNING_SAMPLE);
    build.prepare();
    let loc = BuildTag::location(b("src/lib\\build.rs"), Some(450), Some(7));
    for i in 0..8 {
        assert_eq!(
            build.entries()[i].location(),
            Some(&loc),
            "entry {} should carry the block location",
            i
        );
    }
    // the trailing `= note:` line is a marker and starts a block of its own
    assert!(build.entries()[8].is_note());
    assert_eq!(build.entries()[8].location(), None);
    assert_eq!(
        build.entries()[0].location_str(),
        Some(b("src/lib\\build.rs:450:7"))
    );
}

#[test]
fn auto_selection_on_first_error() {
    let mut build = BuildOutput::new(active());
    build.extend(vec![
        BuildEntry::new(b("   Compiling demo v0.1.0"), Origin::default()),
        BuildEntry::new(b("some plain output"), Origin::default()),
        BuildEntry::new(b("error: boom"), Origin::default()),
    ]);
    assert!(build.markers().selection().is_none());
    let worked = build.prepare();
    assert!(worked);
    assert_eq!(
        build.markers().selection(),
        Some(&MarkerSelection::new(0, 2, None))
    );
    let events = build.take_events();
    assert_eq!(events, vec![BuildEvent::BuildError(2)]);
    assert_eq!(build.errors(), &vec![2]);
}

#[test]
fn prepare_reports_whether_work_was_done() {
    let mut build = BuildOutput::new(active());
    assert!(!build.prepare());
    build.push(BuildEntry::new(b("warning: w"), Origin::default()));
    assert!(build.has_unprepared_entries());
    assert!(build.prepare());
    assert!(!build.has_unprepared_entries());
    assert_eq!(build.cursor(), 1);
    assert!(!build.prepare());
}

#[test]
fn prepared_prefix_is_stable() {
    // preparing more entries never rewrites already-prepared lines
    let mut build = BuildOutput::new(active());
    build.push(BuildEntry::new(b("warning: first"), Origin::default()));
    build.prepare();
    let before = build.display();
    build.push(BuildEntry::new(b("error: second"), Origin::default()));
    build.prepare();
    let after = build.display();
    // the first line's spans are unchanged (the highlight may differ once
    // the new error is auto-selected)
    assert_eq!(before[0].line().spans, after[0].line().spans);
    assert_eq!(after.len(), 2);
}

#[test]
fn marker_index_is_increasing() {
    let mut build = build_from(TWO_MARKER_SAMPLE);
    build.prepare();
    let tags = build.markers().tags();
    assert_eq!(tags, &vec![(0, BuildTagKind::Warning), (4, BuildTagKind::Error)]);
    for w in 1..tags.len() {
        assert!(tags[w - 1].0 < tags[w].0);
    }
}

#[test]
fn block_lookup_before_first_marker() {
    let mut build = build_from(PANIC_SAMPLE);
    build.prepare();
    // entry 0 lies before the first marker: no block contains it
    assert_eq!(build.block_range_at(0), None);
    assert_eq!(build.block_size(0), None);
    assert_eq!(build.block_size(3), Some(6));
}

#[test]
fn extract_location_cases() {
    let ok = BuildOutput::extract_location(&b("  --> src/main.rs:3:9")).unwrap();
    let loc = ok.expect("a location");
    assert_eq!(loc.path(), &b("src/main.rs"));
    assert_eq!(loc.line(), Some(3));
    assert_eq!(loc.column(), Some(9));
    let none = BuildOutput::extract_location(&b("no arrow here")).unwrap();
    assert!(none.is_none());
    let bad = BuildOutput::extract_location(&b("--> src/main.rs:3:x"));
    assert_eq!(
        bad.err().map(|e| e.kind()),
        Some(cargo_nbuild::error::ErrorKind::Parsing)
    );
}

#[test]
fn find_marker_in_rule_snapshot() {
    let build = BuildOutput::new(active());
    let d = build.find_marker(BuildTagKind::Error).expect("error marker");
    assert_eq!(d.tag, BuildTagKind::Error);
    assert_eq!(d.pattern, b("error(\\[\\w+\\])?:"));
}

#[test]
fn display_highlights_selection() {
    let mut build = build_from(TWO_MARKER_SAMPLE);
    build.prepare();
    build.select_entry(4, None);
    let rows = build.display();
    assert_eq!(
        rows[4].line().style.bg,
        cargo_nbuild::style::TextColor::LightBlue
    );
    assert_eq!(
        rows[0].line().style.bg,
        cargo_nbuild::style::TextColor::Unset
    );
}

#[test]
fn margin_comes_from_the_matched_marker() {
    // if the classifier handed back its input unchanged no marker would be
    // found and the first display span could not be the captured text
    let mut build = build_from("error[E42]: boom");
    build.prepare();
    let rows = build.display();
    let spans = &rows[0].line().spans;
    assert_eq!(spans[0].text, b("error[E42]:"));
    assert_eq!(spans[2].text, b(" boom"));
}

#[test]
fn batches_cover_the_unprepared_entries() {
    let mut build = BuildOutput::new(active());
    for i in 0..7 {
        build.push(BuildEntry::new(b(&format!("line {i}")), Origin::default()));
    }
    // seven entries and a chunk size of one fifth of the total (at least
    // one) give seven one-entry batches
    let batches = build.batch_unprepared_entries().expect("work waiting");
    assert_eq!(batches.len(), 7);
    assert_eq!(batches[0].0, 0);
    assert_eq!(batches[0].1.len(), 1);
    assert_eq!(batches[0].1[0].0, 0);
    assert_eq!(batches[6].1[0].0, 6);
    build.prepare();
    assert!(build.batch_unprepared_entries().is_none());
    assert!(build.unprepared_entries().is_none());
}

#[test]
fn marker_block_without_entries() {
    let store = RuleStore::new();
    let mut build = build_from(TWO_MARKER_SAMPLE);
    build.prepare();
    let markers = build.markers();
    let block = markers.block_at(&store, 2).expect("a block");
    assert_eq!(block.marker_id(), 0);
    assert_eq!(block.range(), ByteRange::new(0, 4));
    assert!(block.entries().is_empty());
    assert_eq!(block.marker().kind(), BuildTagKind::Warning);
    // after the last marker the range is a single entry
    let last = markers.block_at(&store, 6).expect("a block");
    assert_eq!(last.range(), ByteRange::new(4, 5));
}

#[test]
fn search_hit_outside_every_block_yields_nothing() {
    // the only hit lies before the first marker, so it belongs to no
    // block and the single-shot search reports nothing
    let mut build = build_from("needle here\nerror: boom\ntail");
    build.prepare();
    assert_eq!(build.search(&b("needle")), None);
    // a hit inside a block on the same log is found as usual
    assert!(build.search(&b("tail")).is_some());
}

#[test]
fn tag_entry_keeps_one_tag_per_kind() {
    let mut build = BuildOutput::new(active());
    build.push(BuildEntry::new(b("plain line"), Origin::default()));
    build.tag_entry(0, BuildTag::location(b("a.rs"), Some(1), None));
    build.tag_entry(0, BuildTag::location(b("b.rs"), Some(2), None));
    let tags = build.entries()[0].tags();
    assert_eq!(tags.len(), 1);
    assert_eq!(
        tags[0].get_location().map(|l| l.path().clone()),
        Some(b("b.rs"))
    );
    // an out-of-range id changes nothing
    build.tag_entry(9, BuildTag::hidden());
    assert_eq!(build.entries().len(), 1);
}
