use onagre::command::LaunchError;
use onagre::config::{CustomMode, OnagreSettings};
use onagre::db::entity::DesktopEntryEntity;
use onagre::db::Database;
use onagre::freedesktop::{DesktopEntry, Extension, IconPath};
use onagre::mode::Mode;
use onagre::session::{Action, Event, Feed, KeyCode, MenuItem, Message, Onagre, Row, State};

fn strings(items: &[&str]) -> Vec<String> {
    let mut out = Vec::new();
    for item in items {
        out.push(item.to_string());
    }
    out
}

fn entry(name: &str, exec_command: &str) -> DesktopEntry {
    DesktopEntry {
        name: name.to_string(),
        icon: Some(IconPath { path: format!("/icons/{}.png", name), extension: Extension::PNG }),
        exec_command: exec_command.to_string(),
        path: format!("/apps/{}.desktop", name),
    }
}

fn settings() -> OnagreSettings {
    OnagreSettings {
        modes: vec![
            CustomMode {
                name: "files".to_string(),
                source: "fd".to_string(),
                target: "xdg-open %".to_string(),
            },
            CustomMode { name: "hosts".to_string(), source: "list-hosts".to_string(), target: "ssh %".to_string() },
        ],
        exit_after_launch: true,
    }
}

fn session() -> Onagre {
    let mut app = Onagre::new(settings(), Database::new());
    for (name, exec_command) in [("Firefox", "firefox %u"), ("Files", "nautilus --new-window %U"), ("Gimp", "gimp")] {
        assert_eq!(app.update(Message::DesktopEntryEvent(entry(name, exec_command))), Action::Idle);
    }
    app
}

fn key(app: &mut Onagre, key_code: KeyCode) -> Action {
    app.update(Message::EventOccurred(Event::KeyPressed(key_code)))
}

fn input(app: &mut Onagre, text: &str) {
    assert_eq!(app.update(Message::InputChanged(text.to_string())), Action::Idle);
}

fn shown(app: &Onagre) -> Vec<String> {
    let mut out = Vec::new();
    for row in app.view().rows {
        out.push(row.content);
    }
    out
}

#[test]
fn new_session_starts_in_desktop_mode() {
    let app = Onagre::new(settings(), Database::new());
    assert!(app.is_well_formed());
    assert_eq!(
        app.modes,
        vec![Mode::Drun, Mode::Custom("files".to_string()), Mode::Custom("hosts".to_string())]
    );
    assert_eq!(app.get_current_mode(), &Mode::Drun);
    assert!(app.state.loading);
    assert_eq!(app.state.mode_button_idx, 0);
    assert_eq!(app.state.selected, 0);
    assert_eq!(app.state.input_value, "");
    assert_eq!(app.state.matches.desktop_entries.len(), 0);
    assert_eq!(app.state.matches.custom_entries.get("placeholder"), Some(&Vec::<String>::new()));
    assert_eq!(app.state.matches.custom_entries.get("files"), None);
    assert_eq!(app.entries.custom_entries.get("files"), Some(&Vec::<String>::new()));
    assert_eq!(app.entries.custom_entries.get("hosts"), Some(&Vec::<String>::new()));
    assert_eq!(app.title(), "Onagre");
}

#[test]
fn default_state_holds_the_placeholder_view() {
    let state = State::default();
    assert!(state.loading);
    assert_eq!(state.mode_button_idx, 0);
    assert_eq!(state.selected, 0);
    assert_eq!(state.input_value, "");
    assert_eq!(state.matches.desktop_entries, Vec::<DesktopEntry>::new());
    assert_eq!(state.matches.custom_entries.get("placeholder"), Some(&Vec::<String>::new()));
}

#[test]
fn session_without_custom_modes_has_the_desktop_mode_only() {
    let mut app = Onagre::new(OnagreSettings::default(), Database::new());
    assert_eq!(app.modes, vec![Mode::Drun]);
    assert_eq!(key(&mut app, KeyCode::Tab), Action::Idle);
    assert_eq!(app.state.mode_button_idx, 0);
    assert_eq!(app.subscription(), vec![Feed::Events, Feed::DesktopEntries]);
}

#[test]
fn desktop_entries_arrive_without_changing_the_view() {
    let app = session();
    assert_eq!(app.entries.desktop_entries.len(), 3);
    assert_eq!(app.entries.desktop_entries[0].name, "Firefox");
    assert_eq!(app.entries.desktop_entries[2].name, "Gimp");
    assert_eq!(app.state.matches.desktop_entries.len(), 0);
}

#[test]
fn input_makes_the_view_anew_and_selects_the_first_row() {
    let mut app = session();
    input(&mut app, "");
    assert_eq!(shown(&app), strings(&["Firefox", "Files", "Gimp"]));
    assert_eq!(key(&mut app, KeyCode::Down), Action::Idle);
    assert_eq!(app.state.selected, 1);
    input(&mut app, "fi");
    assert_eq!(app.state.input_value, "fi");
    assert_eq!(app.state.selected, 0);
    assert_eq!(shown(&app), strings(&["Firefox", "Files"]));
    input(&mut app, "g");
    assert_eq!(shown(&app), strings(&["Gimp"]));
    input(&mut app, "zzz");
    assert_eq!(shown(&app), Vec::<String>::new());
}

#[test]
fn arrows_move_the_selection_within_the_view() {
    let mut app = session();
    input(&mut app, "");
    assert_eq!(key(&mut app, KeyCode::Up), Action::Idle);
    assert_eq!(app.state.selected, 0);
    key(&mut app, KeyCode::Down);
    key(&mut app, KeyCode::Down);
    assert_eq!(app.state.selected, 2);
    key(&mut app, KeyCode::Down);
    assert_eq!(app.state.selected, 2);
    key(&mut app, KeyCode::Up);
    assert_eq!(app.state.selected, 1);
    input(&mut app, "zzz");
    key(&mut app, KeyCode::Down);
    assert_eq!(app.state.selected, 0);
}

#[test]
fn down_in_a_mode_without_a_view_stays_put() {
    let mut app = Onagre::new(settings(), Database::new());
    app.state.mode_button_idx = 1;
    assert_eq!(app.state.matches.custom_entries.get("files"), None);
    assert_eq!(key(&mut app, KeyCode::Down), Action::Idle);
    assert_eq!(app.state.selected, 0);
}

#[test]
fn other_events_change_nothing() {
    let mut app = session();
    input(&mut app, "f");
    key(&mut app, KeyCode::Down);
    assert_eq!(key(&mut app, KeyCode::Other), Action::Idle);
    assert_eq!(app.update(Message::EventOccurred(Event::Other)), Action::Idle);
    assert_eq!(app.state.selected, 1);
    assert_eq!(app.state.input_value, "f");
    assert_eq!(shown(&app), strings(&["Firefox", "Files"]));
}

#[test]
fn escape_quits() {
    let mut app = session();
    assert_eq!(key(&mut app, KeyCode::Escape), Action::Quit);
    assert_eq!(app.state.selected, 0);
}

#[test]
fn tab_cycles_through_the_modes_and_back() {
    let mut app = session();
    input(&mut app, "");
    key(&mut app, KeyCode::Down);
    assert_eq!(key(&mut app, KeyCode::Tab), Action::Idle);
    assert_eq!(app.get_current_mode(), &Mode::Custom("files".to_string()));
    assert_eq!(app.state.selected, 0);
    assert_eq!(app.state.matches.custom_entries.get("files"), Some(&Vec::<String>::new()));
    key(&mut app, KeyCode::Tab);
    assert_eq!(app.get_current_mode(), &Mode::Custom("hosts".to_string()));
    key(&mut app, KeyCode::Tab);
    assert_eq!(app.get_current_mode(), &Mode::Drun);
    assert_eq!(app.state.mode_button_idx, 0);
    assert_eq!(shown(&app), strings(&["Firefox", "Files", "Gimp"]));
}

#[test]
fn cycle_mode_makes_the_new_mode_s_view() {
    let mut app = session();
    app.update(Message::CustomModeEvent("files".to_string(), strings(&["a.txt", "b.txt"])));
    input(&mut app, "b");
    assert_eq!(shown(&app), Vec::<String>::new());
    app.cycle_mode();
    assert_eq!(app.state.mode_button_idx, 1);
    assert_eq!(shown(&app), strings(&["b.txt"]));
}

#[test]
fn custom_lines_go_to_their_own_mode() {
    let mut app = session();
    assert_eq!(app.update(Message::CustomModeEvent("files".to_string(), strings(&["a.txt"]))), Action::Idle);
    assert_eq!(app.update(Message::CustomModeEvent("hosts".to_string(), strings(&["alpha"]))), Action::Idle);
    assert_eq!(app.update(Message::CustomModeEvent("files".to_string(), strings(&["b.txt"]))), Action::Idle);
    assert_eq!(app.update(Message::CustomModeEvent("late".to_string(), strings(&["x"]))), Action::Idle);
    assert_eq!(app.entries.custom_entries.get("files"), Some(&strings(&["a.txt", "b.txt"])));
    assert_eq!(app.entries.custom_entries.get("hosts"), Some(&strings(&["alpha"])));
    assert_eq!(app.entries.custom_entries.get("late"), Some(&strings(&["x"])));
    assert_eq!(app.entries.custom_entries.get("never"), None);
    assert_eq!(app.entries.desktop_entries.len(), 3);

    key(&mut app, KeyCode::Tab);
    assert_eq!(shown(&app), strings(&["a.txt", "b.txt"]));
    input(&mut app, "b");
    assert_eq!(shown(&app), strings(&["b.txt"]));
    input(&mut app, "a");
    assert_eq!(shown(&app), strings(&["a.txt"]));
    key(&mut app, KeyCode::Tab);
    assert_eq!(shown(&app), strings(&["alpha"]));
}

#[test]
fn enter_launches_the_selected_desktop_entry_and_records_it() {
    let mut app = session();
    input(&mut app, "f");
    key(&mut app, KeyCode::Down);
    let action = key(&mut app, KeyCode::Enter);
    let record = DesktopEntryEntity {
        name: "Files".to_string(),
        icon: Some(IconPath { path: "/icons/Files.png".to_string(), extension: Extension::PNG }),
        path: "/apps/Files.desktop".to_string(),
        weight: 0,
    };
    assert_eq!(
        action,
        Action::Launch { argv: strings(&["nautilus", "--new-window"]), usage: Some(record.clone()), exit: true }
    );
    assert_eq!(app.db.get_by_key("Files"), Some(&record));
    assert_eq!(app.db.get_by_key("Firefox"), None);
    assert_eq!(app.state.selected, 1);

    match key(&mut app, KeyCode::Enter) {
        Action::Launch { usage: Some(again), .. } => assert_eq!(again.weight, 1),
        other => panic!("unexpected action {:?}", other),
    }
    assert_eq!(app.db.weight_of("Files"), 1);
}

#[test]
fn launched_entries_rise_in_the_view() {
    let mut app = session();
    input(&mut app, "f");
    assert_eq!(shown(&app), strings(&["Firefox", "Files"]));
    key(&mut app, KeyCode::Enter);
    key(&mut app, KeyCode::Down);
    key(&mut app, KeyCode::Enter);
    key(&mut app, KeyCode::Enter);
    assert_eq!(app.db.weight_of("Firefox"), 0);
    assert_eq!(app.db.weight_of("Files"), 1);
    input(&mut app, "f");
    assert_eq!(shown(&app), strings(&["Files", "Firefox"]));
    // A better match still wins.
    input(&mut app, "fir");
    assert_eq!(shown(&app), strings(&["Firefox"]));
}

#[test]
fn exit_policy_is_handed_on() {
    let mut quiet = settings();
    quiet.exit_after_launch = false;
    let mut app = Onagre::new(quiet, Database::new());
    app.update(Message::DesktopEntryEvent(entry("Gimp", "gimp")));
    input(&mut app, "g");
    match app.run_command() {
        Action::Launch { argv, exit, .. } => {
            assert_eq!(argv, strings(&["gimp"]));
            assert!(!exit);
        },
        other => panic!("unexpected action {:?}", other),
    }
}

#[test]
fn enter_on_an_empty_view_fails() {
    let mut app = session();
    assert_eq!(key(&mut app, KeyCode::Enter), Action::Fail(LaunchError::NothingSelected));
    input(&mut app, "zzz");
    assert_eq!(key(&mut app, KeyCode::Enter), Action::Fail(LaunchError::NothingSelected));
    key(&mut app, KeyCode::Tab);
    assert_eq!(key(&mut app, KeyCode::Enter), Action::Fail(LaunchError::NothingSelected));
    assert_eq!(app.db.records().len(), 0);
}

#[test]
fn entry_that_cannot_be_launched_is_not_recorded() {
    let mut app = Onagre::new(settings(), Database::new());
    app.update(Message::DesktopEntryEvent(entry("Broken", "sh -c \"oops")));
    app.update(Message::DesktopEntryEvent(entry("Blank", "%u")));
    input(&mut app, "b");
    assert_eq!(shown(&app), strings(&["Broken", "Blank"]));
    assert_eq!(key(&mut app, KeyCode::Enter), Action::Fail(LaunchError::UnclosedQuote));
    key(&mut app, KeyCode::Down);
    assert_eq!(key(&mut app, KeyCode::Enter), Action::Fail(LaunchError::EmptyCommand));
    assert_eq!(app.db.records().len(), 0);
}

#[test]
fn enter_in_a_custom_mode_fills_the_target_command() {
    let mut app = session();
    app.update(Message::CustomModeEvent("files".to_string(), strings(&["a.txt", "b.txt"])));
    key(&mut app, KeyCode::Tab);
    key(&mut app, KeyCode::Down);
    assert_eq!(
        key(&mut app, KeyCode::Enter),
        Action::Launch { argv: strings(&["xdg-open", "b.txt"]), usage: None, exit: true }
    );
    assert_eq!(app.db.records().len(), 0);
    assert_eq!(app.db.get_by_key("b.txt"), None);
}

#[test]
fn custom_mode_without_settings_has_no_target() {
    let mut app = session();
    app.modes.push(Mode::Custom("stray".to_string()));
    app.state.mode_button_idx = 3;
    app.set_custom_matches("stray", strings(&["x"]));
    assert_eq!(app.run_command(), Action::Fail(LaunchError::NoTarget));
    assert_eq!(app.subscription(), vec![Feed::Events, Feed::DesktopEntries]);
}

#[test]
fn subscription_follows_the_active_mode() {
    let mut app = session();
    assert_eq!(app.subscription(), vec![Feed::Events, Feed::DesktopEntries]);
    key(&mut app, KeyCode::Tab);
    assert_eq!(
        app.subscription(),
        vec![
            Feed::Events,
            Feed::DesktopEntries,
            Feed::Command { mode: "files".to_string(), source: "fd".to_string() },
        ]
    );
    key(&mut app, KeyCode::Tab);
    assert_eq!(
        app.subscription(),
        vec![
            Feed::Events,
            Feed::DesktopEntries,
            Feed::Command { mode: "hosts".to_string(), source: "list-hosts".to_string() },
        ]
    );
}

#[test]
fn view_shows_menu_input_and_rows() {
    let mut app = session();
    input(&mut app, "f");
    key(&mut app, KeyCode::Down);
    let screen = app.view();
    assert_eq!(screen.input_value, "f");
    assert_eq!(
        screen.menu,
        vec![
            MenuItem { label: "Drun".to_string(), selected: true },
            MenuItem { label: "files".to_string(), selected: false },
            MenuItem { label: "hosts".to_string(), selected: false },
        ]
    );
    assert_eq!(
        screen.rows,
        vec![
            Row {
                content: "Firefox".to_string(),
                icon: Some(IconPath { path: "/icons/Firefox.png".to_string(), extension: Extension::PNG }),
                selected: false,
            },
            Row {
                content: "Files".to_string(),
                icon: Some(IconPath { path: "/icons/Files.png".to_string(), extension: Extension::PNG }),
                selected: true,
            },
        ]
    );
}

#[test]
fn view_of_a_custom_mode_shows_at_most_the_limit() {
    let mut app = session();
    let mut lines = Vec::new();
    let mut i = 0;
    while i < 80 {
        lines.push(format!("line {}", i));
        i += 1;
    }
    key(&mut app, KeyCode::Tab);
    app.set_custom_matches("files", lines);
    let screen = app.view();
    assert_eq!(screen.rows.len(), 50);
    assert_eq!(screen.rows[0], Row { content: "line 0".to_string(), icon: None, selected: true });
    assert_eq!(screen.rows[49], Row { content: "line 49".to_string(), icon: None, selected: false });
    assert_eq!(screen.menu[1], MenuItem { label: "files".to_string(), selected: true });
    key(&mut app, KeyCode::Tab);
    assert_eq!(app.view().rows, Vec::<Row>::new());
}

#[test]
fn rows_and_menu_builders() {
    let icon = IconPath { path: "/i.svg".to_string(), extension: Extension::SVG };
    assert_eq!(
        Onagre::build_row("Gimp", Some(&icon)),
        Row { content: "Gimp".to_string(), icon: Some(icon.clone()), selected: false }
    );
    assert_eq!(
        Onagre::build_row_selected("Gimp", None),
        Row { content: "Gimp".to_string(), icon: None, selected: true }
    );
    let modes = vec![Mode::Drun, Mode::Custom("x".to_string())];
    assert_eq!(
        Onagre::build_mode_menu(1, &modes),
        vec![
            MenuItem { label: "Drun".to_string(), selected: false },
            MenuItem { label: "x".to_string(), selected: true },
        ]
    );
    assert_eq!(Onagre::build_mode_menu(0, &[]), Vec::<MenuItem>::new());
}

#[test]
fn set_matches_replace_one_view() {
    let mut app = session();
    app.set_desktop_matches(vec![entry("Only", "only")]);
    app.set_custom_matches("files", strings(&["one"]));
    app.set_custom_matches("files", strings(&["two", "three"]));
    assert_eq!(app.state.matches.desktop_entries, vec![entry("Only", "only")]);
    assert_eq!(app.state.matches.custom_entries.get("files"), Some(&strings(&["two", "three"])));
    assert_eq!(app.state.matches.custom_entries.get("placeholder"), Some(&Vec::<String>::new()));
}

#[test]
fn reset_matches_uses_the_first_entries_for_empty_input() {
    let mut app = Onagre::new(settings(), Database::new());
    let mut i = 0;
    while i < 60 {
        app.update(Message::DesktopEntryEvent(entry(&format!("app{}", i), "app")));
        i += 1;
    }
    app.state.selected = 7;
    app.reset_matches();
    assert_eq!(app.state.selected, 0);
    assert_eq!(app.state.matches.desktop_entries.len(), 50);
    assert_eq!(app.state.matches.desktop_entries[49].name, "app49");
}

#[test]
fn learning_scenario_across_two_runs() {
    // The store already holds both entries, neither of them launched yet.
    let mut db: Database<DesktopEntryEntity> = Database::new();
    for name in ["Files", "Firefox"] {
        db.insert(DesktopEntryEntity {
            name: name.to_string(),
            icon: None,
            path: format!("/apps/{}.desktop", name),
            weight: 0,
        });
    }
    let mut app = Onagre::new(settings(), db);
    app.update(Message::DesktopEntryEvent(entry("Files", "nautilus")));
    app.update(Message::DesktopEntryEvent(entry("Firefox", "firefox")));
    input(&mut app, "f");
    assert_eq!(shown(&app), strings(&["Files", "Firefox"]));
    key(&mut app, KeyCode::Down);
    match key(&mut app, KeyCode::Enter) {
        Action::Launch { argv, usage: Some(record), exit } => {
            assert_eq!(argv, strings(&["firefox"]));
            assert_eq!(record.name, "Firefox");
            assert_eq!(record.weight, 1);
            assert!(exit);
        },
        other => panic!("unexpected action {:?}", other),
    }
    assert_eq!(app.db.weight_of("Firefox"), 1);
    assert_eq!(app.db.weight_of("Files"), 0);

    // The next run starts from the records that were kept.
    let mut kept: Database<DesktopEntryEntity> = Database::new();
    for record in app.db.records() {
        kept.insert(record.clone());
    }
    let mut next = Onagre::new(settings(), kept);
    next.update(Message::DesktopEntryEvent(entry("Files", "nautilus")));
    next.update(Message::DesktopEntryEvent(entry("Firefox", "firefox")));
    input(&mut next, "f");
    assert_eq!(shown(&next), strings(&["Firefox", "Files"]));
    input(&mut next, "f");
    assert_eq!(shown(&next), strings(&["Firefox", "Files"]));
}

#[test]
fn first_launch_of_an_unknown_entry_is_stored_with_weight_zero() {
    let mut app = session();
    input(&mut app, "g");
    match key(&mut app, KeyCode::Enter) {
        Action::Launch { usage: Some(record), .. } => assert_eq!(record.weight, 0),
        other => panic!("unexpected action {:?}", other),
    }
    assert_eq!(app.db.get_by_key("Gimp").map(|record| record.weight), Some(0));
}
