//! The front-end state machines: search bar, help menu, status bar, log
//! pane and command-line parsing.

use cargo_nbuild::event::{BuildEvent, ExitInfo};
use cargo_nbuild::help::HelpMenu;
use cargo_nbuild::log::{LogEntry, LogView};
use cargo_nbuild::opt::AppOptions;
use cargo_nbuild::search_ui::{Direction, Key, SearchBar, SearchState};
use cargo_nbuild::status::StatusBar;
use cargo_nbuild::style::DisplayLine;
use cargo_nbuild::tag::{BuildTag, BuildTagKind};

fn b(s: &str) -> Vec<u8> {
    s.as_bytes().to_vec()
}

#[test]
fn search_state_editing() {
    let mut st = SearchState::new();
    st.push(b'p');
    st.push(b'a');
    st.push(b'x');
    assert_eq!(st.query, b("pax"));
    assert_eq!(st.cursor_position(), 5);
    assert_eq!(st.pop(Direction::Backward), Some(b'x'));
    assert_eq!(st.query, b("pa"));
    st.cursor = 0;
    assert_eq!(st.pop(Direction::Forward), Some(b'p'));
    assert_eq!(st.query, b("a"));
    assert_eq!(st.pop(Direction::Backward), None);
}

#[test]
fn search_bar_open_type_submit() {
    let mut state: Option<SearchState> = None;
    let mut submitted: Option<Vec<u8>> = None;
    // an unrelated key is not consumed while the bar is closed
    assert!(!SearchBar::handle_key(Key::Enter, &mut state, &mut submitted));
    // a slash opens the bar
    assert!(SearchBar::handle_key(Key::Character(b'/'), &mut state, &mut submitted));
    assert!(state.is_some());
    assert!(SearchBar::handle_key(Key::Character(b'o'), &mut state, &mut submitted));
    assert!(SearchBar::handle_key(Key::Character(b'k'), &mut state, &mut submitted));
    assert_eq!(SearchBar::format(&state), Some(b("> ok")));
    assert!(SearchBar::handle_key(Key::Enter, &mut state, &mut submitted));
    assert_eq!(submitted, Some(b("ok")));
    assert!(SearchBar::handle_key(Key::Esc, &mut state, &mut submitted));
    assert!(state.is_none());
    assert_eq!(SearchBar::format(&state), None);
}

#[test]
fn help_menu_keys() {
    let mut show = false;
    let mut scroll: usize = 7;
    // aitch opens the menu and resets the scroll
    assert!(HelpMenu::handle_key(Key::Character(b'h'), &mut show, 5, &mut scroll));
    assert!(show);
    assert_eq!(scroll, 0);
    assert!(HelpMenu::handle_key(Key::Down, &mut show, 5, &mut scroll));
    assert_eq!(scroll, 1);
    assert!(HelpMenu::handle_key(Key::Up, &mut show, 5, &mut scroll));
    assert!(HelpMenu::handle_key(Key::Up, &mut show, 5, &mut scroll));
    assert_eq!(scroll, 0);
    assert!(HelpMenu::handle_key(Key::Esc, &mut show, 5, &mut scroll));
    assert!(!show);
    // while closed, other keys are not consumed
    assert!(!HelpMenu::handle_key(Key::Down, &mut show, 5, &mut scroll));
    let menu = HelpMenu::new().with_keys(vec![(b("q"), b("quit"))]).with_scroll(2);
    assert_eq!(menu.keys.len(), 1);
    assert_eq!(menu.scroll, 2);
}

#[test]
fn status_bar_finished_message() {
    let bar = StatusBar::new()
        .with_num_errors(2)
        .with_num_warnings(0)
        .with_num_notes(1)
        .with_num_output_lines(7)
        .with_num_prepared_lines(7);
    let msg = bar.transform_build_finished(ExitInfo::failed());
    assert_eq!(msg.parts.len(), 10);
    assert_eq!(msg.parts[0].text, b("Build "));
    assert_eq!(msg.parts[1].text, b("finished"));
    assert_eq!(msg.parts[2].text, b(" failed"));
    assert_eq!(msg.parts[4].text, b("2 error(s)"));
    assert_eq!(msg.parts[6].text, b("no warnings"));
    assert_eq!(msg.parts[8].text, b("1 note(s)"));
    assert_eq!(msg.parts[9].text, b("7/7 line(s)"));
}

#[test]
fn status_bar_remembers_messages() {
    let mut bar = StatusBar::new();
    assert!(bar.last_message().is_none());
    bar = bar.with_event(BuildEvent::BuildStarted);
    let last = bar.last_message().expect("a message");
    assert_eq!(last.parts[1].text, b("running"));
    // error events carry no status message
    bar = bar.with_event(BuildEvent::BuildError(3));
    assert_eq!(bar.last_message().unwrap().parts[1].text, b("running"));
}

#[test]
fn log_view_filters_rows() {
    let tagged = LogEntry::new(
        DisplayLine::empty(),
        vec![BuildTag::hidden()],
    );
    let plain = LogEntry::new(DisplayLine::empty(), Vec::new());
    let view = LogView::new().with_content(vec![tagged, plain]);
    assert_eq!(view.visible_lines().len(), 2);
    let mut view = view;
    view.set_filter(Some(BuildTagKind::Hidden));
    assert_eq!(view.visible_lines().len(), 1);
    view.set_filter(None);
    assert_eq!(view.visible_lines().len(), 2);
}

#[test]
fn parse_args_flags_and_forwarding() {
    let args = vec![
        b("nbuild"),
        b("-E"),
        b("--active-rule"),
        b("cargo"),
        b("--release"),
        b("--"),
        b("--help"),
    ];
    let opts = AppOptions::parse_args(args, &b("nbuild"), true);
    assert!(!opts.stdin);
    assert!(opts.show_only_errors);
    assert!(!opts.show_help);
    assert_eq!(opts.active_rule, b("cargo"));
    // unknown flags go to the build command; everything after the double
    // dash is forwarded untouched, even known flags
    assert_eq!(opts.build_args, vec![b("--release"), b("--help")]);
}

#[test]
fn parse_args_help_and_config() {
    let args = vec![b("--HELP"), b("--config"), b("custom.json")];
    let opts = AppOptions::parse_args(args, &b("nbuild"), false);
    assert!(opts.stdin);
    assert!(opts.show_help);
    assert_eq!(opts.config_path, Some(b("custom.json")));
    assert!(opts.build_args.is_empty());
}

#[test]
fn usage_rows_are_aligned() {
    let opts = cargo_nbuild::opt::known_options();
    let rows = cargo_nbuild::opt::usage_lines(&opts);
    assert_eq!(rows.len(), 6);
    let first = String::from_utf8(rows[0].clone()).unwrap();
    assert!(first.starts_with("  -h, --help"));
    assert!(first.contains(": Show this help screen"));
    // all colons line up
    let col: Vec<usize> = rows
        .iter()
        .map(|r| r.iter().position(|&c| c == b':').unwrap())
        .collect();
    assert!(col.iter().all(|&c| c == col[0]));
}
