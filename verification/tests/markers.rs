//! Marker classification, the marker index and selection navigation.

use cargo_nbuild::entry::BuildEntry;
use cargo_nbuild::marker::{must_know_marker, CapturedMarker, MarkerRef, MarkerSelection, Markers};
use cargo_nbuild::origin::Origin;
use cargo_nbuild::range::ByteRange;
use cargo_nbuild::rule::{Rule, RuleStore};
use cargo_nbuild::tag::{BuildTag, BuildTagKind};

fn b(s: &str) -> Vec<u8> {
    s.as_bytes().to_vec()
}

fn active() -> Rule {
    RuleStore::new().active_rule().expect("active rule")
}

#[test]
fn prepare_error() {
    let store = RuleStore::new();
    let mut entry = BuildEntry::new(b("error: test"), Origin::default());
    Markers::prepare(&mut entry, &active()).unwrap();
    assert_eq!(
        entry.first_marker(),
        Some(&MarkerRef::new(
            Some(CapturedMarker::new(0, b("error:"))),
            must_know_marker(&store, BuildTagKind::Error),
        ))
    )
}

#[test]
fn prepare_warning() {
    let store = RuleStore::new();
    let mut entry = BuildEntry::new(b("warning: test"), Origin::default());
    Markers::prepare(&mut entry, &active()).unwrap();
    assert_eq!(
        entry.first_marker(),
        Some(&MarkerRef::new(
            Some(CapturedMarker::new(0, b("warning:"))),
            must_know_marker(&store, BuildTagKind::Warning),
        ))
    )
}

#[test]
fn prepare_note() {
    let store = RuleStore::new();
    let mut entry = BuildEntry::new(b("note: test"), Origin::default());
    Markers::prepare(&mut entry, &active()).unwrap();
    assert_eq!(
        entry.first_marker(),
        Some(&MarkerRef::new(
            Some(CapturedMarker::new(0, b("note:"))),
            must_know_marker(&store, BuildTagKind::Note),
        ))
    )
}

fn one_error_entries() -> Vec<BuildEntry> {
    let rule = active();
    vec![
        BuildEntry::new(b("error: test error"), Origin::default()).with_tags(vec![
            BuildTag::error(&rule, ByteRange::new(0, 6), b("error:")).unwrap(),
        ]),
        BuildEntry::new(b("and a non-marker"), Origin::default()),
    ]
}

fn error_and_warning_entries() -> Vec<BuildEntry> {
    let rule = active();
    vec![
        BuildEntry::new(b("error: test error"), Origin::default()).with_tags(vec![
            BuildTag::error(&rule, ByteRange::new(0, 6), b("error:")).unwrap(),
        ]),
        BuildEntry::new(b("and a non-marker"), Origin::default()),
        BuildEntry::new(b("warning: test warning"), Origin::default()).with_tags(vec![
            BuildTag::warning(&rule, ByteRange::new(0, 7), b("warning:")).unwrap(),
        ]),
    ]
}

#[test]
fn from_entries() {
    let entries = one_error_entries();
    let markers = Markers::from_entries(&entries);
    assert_eq!(
        markers,
        Markers { tags: vec![(0, BuildTagKind::Error)], selection: None }
    )
}

#[test]
fn selected() {
    let entries = error_and_warning_entries();
    let mut markers = Markers::from_entries(&entries);
    markers.select(1, None);
    assert_eq!(markers.selection, Some(MarkerSelection::new(1, 2, None)));
    assert_eq!(markers.selected_entry(), Some(2));
    assert_eq!(markers.selected_kind(), Some(BuildTagKind::Warning));
}

#[test]
fn entry_for_marker() {
    let entries = error_and_warning_entries();
    let markers = Markers::from_entries(&entries);
    let entry = markers.entry_for_marker(1);
    assert_eq!(entry, Some(&(2, BuildTagKind::Warning)))
}

#[test]
fn select_next() {
    let entries = error_and_warning_entries();
    let mut markers = Markers::from_entries(&entries);
    // first time goes from no selection to marker 0
    assert_eq!(markers.select_next(), Some(&MarkerSelection::new(0, 0, None)));
    // second time goes from marker 0 to marker 1
    assert_eq!(markers.select_next(), Some(&MarkerSelection::new(1, 2, None)));
    // third time stays at marker 1: the step saturates
    assert_eq!(markers.select_next(), Some(&MarkerSelection::new(1, 2, None)));
}

#[test]
fn select_previous() {
    let entries = error_and_warning_entries();
    let mut markers = Markers::from_entries(&entries);
    // first time goes from no selection to marker 0
    assert_eq!(
        markers.select_previous(),
        Some(&MarkerSelection::new(0, 0, None))
    );
    // second time stays at marker 0
    assert_eq!(
        markers.select_previous(),
        Some(&MarkerSelection::new(0, 0, None))
    );
}

#[test]
fn marker_navigation() {
    // two markers at entries 0 and 2, driven without any entry list
    let mut markers = Markers {
        tags: vec![(0, BuildTagKind::Error), (2, BuildTagKind::Warning)],
        selection: None,
    };
    assert_eq!(markers.select_next(), Some(&MarkerSelection::new(0, 0, None)));
    assert_eq!(markers.select_next(), Some(&MarkerSelection::new(1, 2, None)));
    assert_eq!(markers.select_next(), Some(&MarkerSelection::new(1, 2, None)));
    let mut fresh = Markers {
        tags: vec![(0, BuildTagKind::Error), (2, BuildTagKind::Warning)],
        selection: None,
    };
    assert_eq!(fresh.select_previous(), Some(&MarkerSelection::new(0, 0, None)));
    assert_eq!(fresh.select_previous(), Some(&MarkerSelection::new(0, 0, None)));
}

#[test]
fn select_first_twice_is_select_first() {
    let entries = error_and_warning_entries();
    let mut markers = Markers::from_entries(&entries);
    markers.select(1, None);
    let once = markers.select_first().cloned();
    let twice = markers.select_first().cloned();
    assert_eq!(once, twice);
    assert_eq!(once, Some(MarkerSelection::new(0, 0, None)));
}

#[test]
fn select_and_unselect() {
    let mut markers = Markers::new();
    markers.select(3, None);
    assert_eq!(markers.selection, None);
    markers.tags = vec![(1, BuildTagKind::Error)];
    markers.select(9, Some(ByteRange::new(2, 4)));
    assert_eq!(
        markers.selection,
        Some(MarkerSelection::new(0, 1, Some(ByteRange::new(2, 4))))
    );
    markers.unselect();
    assert_eq!(markers.selection, None);
}

#[test]
fn block_range_in_markers() {
    let markers = Markers {
        tags: vec![(0, BuildTagKind::Warning), (4, BuildTagKind::Error)],
        selection: None,
    };
    assert_eq!(markers.block_range_at(1), Some((0, ByteRange::new(0, 4))));
    // after the last marker the range is a single entry
    assert_eq!(markers.block_range_at(5), Some((1, ByteRange::new(4, 5))));
}

#[test]
fn marker_tag_for_unknown_kind_fails() {
    let rule = Rule::new(vec![b("empty")], b("true"), Vec::new());
    let r = BuildTag::error(&rule, ByteRange::new(0, 6), b("error:"));
    assert!(r.is_err());
    assert_eq!(
        r.err().map(|e| e.kind()),
        Some(cargo_nbuild::error::ErrorKind::Rule)
    );
}
