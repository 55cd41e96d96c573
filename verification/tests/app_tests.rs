use nordtui::app::{panel_color, status_color, Action, App, Key, Pane, UiColor};
use nordtui::nord::{init, get_status, City, Country};

fn sample_app() -> App {
    let spain = Country {
        name: "Spain".to_string(),
        cities: vec![
            City { name: "Madrid".to_string() },
            City { name: "Barcelona".to_string() },
        ],
    };
    let france = Country {
        name: "France".to_string(),
        cities: vec![City { name: "Paris".to_string() }],
    };
    App::new(init(get_status(""), vec![spain, france]))
}

#[test]
fn initial_state_is_country_pane_with_nothing_selected() {
    let app = sample_app();
    assert!(matches!(app.pane, Pane::Country));
    assert_eq!(app.countries.state.selected(), None);
    assert!(app.cities.items.is_empty());
    assert_eq!(app.cities.state.selected(), None);
    assert!(!app.help);
}

#[test]
fn down_tab_enter_scenario() {
    let mut app = sample_app();

    // Down selects country 0 and derives its cities, none selected
    let a = app.handle_key(Key::Down);
    assert!(matches!(a, Action::Nothing));
    assert_eq!(app.countries.state.selected(), Some(0));
    assert_eq!(app.cities.items.len(), 2);
    assert_eq!(app.cities.items[0].name, "Madrid");
    assert_eq!(app.cities.state.selected(), None);

    // Tab switches focus without touching either selection
    let a = app.handle_key(Key::Tab);
    assert!(matches!(a, Action::Nothing));
    assert!(matches!(app.pane, Pane::City));
    assert_eq!(app.countries.state.selected(), Some(0));
    assert_eq!(app.cities.state.selected(), None);

    // Down in the city pane selects the first city
    app.handle_key(Key::Down);
    assert_eq!(app.cities.state.selected(), Some(0));

    // Enter while city-focused connects to that city
    let a = app.handle_key(Key::Enter);
    match a {
        Action::Connect(name) => assert_eq!(name, "Madrid"),
        _ => panic!("expected a connect action"),
    }
}

#[test]
fn country_cursor_moves_reload_cities() {
    let mut app = sample_app();
    app.handle_key(Key::Down);
    app.handle_key(Key::Down);
    assert_eq!(app.countries.state.selected(), Some(1));
    assert_eq!(app.cities.items.len(), 1);
    assert_eq!(app.cities.items[0].name, "Paris");
    app.handle_key(Key::Up);
    assert_eq!(app.countries.state.selected(), Some(0));
    assert_eq!(app.cities.items[0].name, "Madrid");
}

#[test]
fn jump_to_last_does_not_reload_cities() {
    let mut app = sample_app();
    let a = app.handle_key(Key::Char('G'));
    assert!(matches!(a, Action::Nothing));
    assert_eq!(app.countries.state.selected(), Some(1));
    // the asymmetry is preserved: the city list stays as it was
    assert!(app.cities.items.is_empty());
}

#[test]
fn jump_to_first_reloads_cities() {
    let mut app = sample_app();
    app.handle_key(Key::Char('G'));
    app.handle_key(Key::Char('g'));
    assert_eq!(app.countries.state.selected(), Some(0));
    assert_eq!(app.cities.items.len(), 2);
}

#[test]
fn city_pane_jumps_move_the_country_cursor() {
    let mut app = sample_app();
    app.handle_key(Key::Tab);
    let a = app.handle_key(Key::Char('G'));
    assert!(matches!(a, Action::Nothing));
    // the preserved quirk: g and G steer the country list from the city pane
    assert_eq!(app.countries.state.selected(), Some(1));
    assert_eq!(app.cities.state.selected(), None);
}

#[test]
fn pane_keys_toggle_focus_both_ways() {
    let mut app = sample_app();
    app.handle_key(Key::Char('l'));
    assert!(matches!(app.pane, Pane::City));
    app.handle_key(Key::Char('h'));
    assert!(matches!(app.pane, Pane::Country));
    app.handle_key(Key::Right);
    assert!(matches!(app.pane, Pane::City));
    app.handle_key(Key::Left);
    assert!(matches!(app.pane, Pane::Country));
}

#[test]
fn quit_hides_help_first_then_exits() {
    let mut app = sample_app();
    let a = app.handle_key(Key::Char('?'));
    assert!(matches!(a, Action::Nothing));
    assert!(app.help);
    let a = app.handle_key(Key::Char('q'));
    assert!(matches!(a, Action::Nothing));
    assert!(!app.help);
    let a = app.handle_key(Key::Char('q'));
    assert!(matches!(a, Action::Exit));
    let a = app.handle_key(Key::Esc);
    assert!(matches!(a, Action::Exit));
}

#[test]
fn refresh_and_disconnect_actions() {
    let mut app = sample_app();
    assert!(matches!(app.handle_key(Key::Char('r')), Action::Refresh));
    assert!(matches!(app.handle_key(Key::Char('d')), Action::Disconnect));
}

#[test]
fn connect_in_country_pane_defaults_to_first_country() {
    let mut app = sample_app();
    match app.handle_key(Key::Char('c')) {
        Action::Connect(name) => assert_eq!(name, "Spain"),
        _ => panic!("expected a connect action"),
    }
}

#[test]
fn random_connect_names_some_country() {
    let mut app = sample_app();
    match app.handle_key(Key::Char('R')) {
        Action::Connect(name) => assert!(name == "Spain" || name == "France"),
        _ => panic!("expected a connect action"),
    }
}

#[test]
fn unknown_keys_do_nothing() {
    let mut app = sample_app();
    let a = app.handle_key(Key::Char('x'));
    assert!(matches!(a, Action::Nothing));
    assert_eq!(app.countries.state.selected(), None);
    let a = app.handle_key(Key::Other);
    assert!(matches!(a, Action::Nothing));
}

#[test]
fn reload_status_replaces_only_the_snapshot() {
    let mut app = sample_app();
    app.handle_key(Key::Down);
    app.reload_status(get_status("Status: Connected\nCountry: Spain"));
    assert_eq!(app.status.status, "Connected");
    assert_eq!(app.status.country, "Spain");
    assert_eq!(app.countries.state.selected(), Some(0));
}

#[test]
fn status_colour_is_green_only_for_the_exact_literal() {
    let mut status = get_status("Status: Connected");
    assert!(matches!(status_color(&status), UiColor::Green));
    status.status = "connected".to_string();
    assert!(matches!(status_color(&status), UiColor::Red));
    status.status = "Disconnected".to_string();
    assert!(matches!(status_color(&status), UiColor::Red));
    status.status = "Connected ".to_string();
    assert!(matches!(status_color(&status), UiColor::Red));
}

#[test]
fn focused_panel_is_highlighted() {
    assert!(matches!(panel_color(Pane::Country, Pane::Country), UiColor::LightCyan));
    assert!(matches!(panel_color(Pane::Country, Pane::City), UiColor::Plain));
    assert!(matches!(panel_color(Pane::City, Pane::City), UiColor::LightCyan));
    assert!(matches!(panel_color(Pane::City, Pane::Country), UiColor::Plain));
}
