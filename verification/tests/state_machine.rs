use pagerduty_tui::actions::{map_key, update, Action, Effect, Key, REFRESH_RATE};
use pagerduty_tui::app::App;
use pagerduty_tui::config::AppConfig;
use pagerduty_tui::pagerduty::{Incident, PagerDuty};

fn incident(id: &str, service: &str, status: &str, triggered: bool) -> Incident {
    Incident {
        id: String::from(id),
        summary: format!("{}\nsummary of {}", service, id),
        service: String::from(service),
        status: String::from(status),
        created_at: String::from("2024-01-01T00:00:00Z"),
        triggered,
    }
}

fn test_app(items: Vec<Incident>, refresh_rate: Option<i64>) -> App {
    let pd = PagerDuty::new("example", "key", String::from("USER1"));
    let config = AppConfig::new(
        String::from("example"),
        String::from("key"),
        refresh_rate,
    );
    App::new(items, pd, &config)
}

fn three_incidents() -> Vec<Incident> {
    vec![
        incident("A1", "alpha", "triggered", true),
        incident("B2", "alpha", "acknowledged", true),
        incident("C3", "beta", "triggered", true),
    ]
}

#[test]
fn selection_stays_in_bounds() {
    let mut app = test_app(three_incidents(), None);
    let moves = [
        Action::Increment,
        Action::Increment,
        Action::Increment,
        Action::Decrement,
        Action::Top,
        Action::Decrement,
        Action::Increment,
    ];
    for action in moves {
        update(&mut app, action);
        assert!(app.selected_index < app.items.len());
    }
}

#[test]
fn next_wraps_to_top() {
    let mut app = test_app(three_incidents(), None);
    app.selected_index = 2;
    app.next();
    assert_eq!(app.selected_index, 0);
}

#[test]
fn previous_wraps_to_bottom() {
    let mut app = test_app(three_incidents(), None);
    app.previous();
    assert_eq!(app.selected_index, 2);
}

#[test]
fn navigation_on_single_item_stays_put() {
    let mut app = test_app(vec![incident("X", "svc", "triggered", true)], None);
    app.next();
    assert_eq!(app.selected_index, 0);
    app.previous();
    assert_eq!(app.selected_index, 0);
    app.top();
    assert_eq!(app.selected_index, 0);
}

#[test]
fn empty_result_substitutes_placeholder() {
    let mut app = test_app(three_incidents(), None);
    app.selected_index = 2;
    app.refreshing = true;
    let effects = update(&mut app, Action::UpdateResult(Vec::new()));
    assert!(effects.is_empty());
    assert_eq!(app.items.len(), 1);
    assert_eq!(app.items[0].summary, " - NO INCIDENTS | TIME FOR A BREAK - ");
    assert!(!app.items[0].triggered);
    assert_eq!(app.selected_index, 0);
    assert!(!app.refreshing);
}

#[test]
fn refresh_result_replaces_items() {
    let mut app = test_app(three_incidents(), None);
    app.refreshing = true;
    let replacement = vec![incident("N1", "gamma", "triggered", true)];
    update(&mut app, Action::UpdateResult(replacement));
    assert_eq!(app.items.len(), 1);
    assert_eq!(app.items[0].id, "N1");
    assert_eq!(app.selected_index, 0);
    assert!(!app.refreshing);
}

#[test]
fn acknowledge_marks_selected_row() {
    let mut app = test_app(three_incidents(), None);
    app.selected_index = 1;
    let effects = update(&mut app, Action::Acknowledge);
    assert!(!app.items[1].triggered);
    assert!(app.items[1].status.ends_with("\nSending Ack"));
    assert_eq!(app.items[1].status, "acknowledged\nSending Ack");
    assert_eq!(app.selected_index, 1);
    assert_eq!(effects.len(), 1);
    match &effects[0] {
        Effect::Ack { id } => assert_eq!(id, "B2"),
        _ => panic!("expected an acknowledge job"),
    }
    assert!(app.items[0].triggered);
    assert!(app.items[2].triggered);
}

#[test]
fn acknowledge_already_acknowledged_is_noop() {
    let mut app = test_app(three_incidents(), None);
    app.items[0].triggered = false;
    let before = app.items[0].status.clone();
    let effects = update(&mut app, Action::Acknowledge);
    assert!(effects.is_empty());
    assert_eq!(app.items[0].status, before);
    assert!(!app.items[0].status.contains("Sending Ack"));
}

#[test]
fn bulk_acknowledge_scopes_to_selected_service() {
    let mut app = test_app(
        vec![
            incident("I1", "alpha", "triggered", true),
            incident("I2", "alpha", "acknowledged", false),
            incident("I3", "beta", "triggered", true),
        ],
        None,
    );
    let effects = update(&mut app, Action::AcknowledgeAll);
    assert!(!app.items[0].triggered);
    assert!(app.items[0].status.ends_with("\nSending Ack"));
    assert!(!app.items[1].triggered);
    assert!(!app.items[1].status.contains("Sending Ack"));
    assert!(app.items[2].triggered);
    assert!(!app.items[2].status.contains("Sending Ack"));
    assert_eq!(effects.len(), 1);
    match &effects[0] {
        Effect::Ack { id } => assert_eq!(id, "I1"),
        _ => panic!("expected an acknowledge job"),
    }
}

#[test]
fn hide_ack_round_trip() {
    let mut app = test_app(three_incidents(), None);
    assert!(!app.hide_ack);
    update(&mut app, Action::HideAck);
    assert!(app.hide_ack);
    update(&mut app, Action::HideAck);
    assert!(!app.hide_ack);
}

#[test]
fn show_all_round_trip_and_refetch() {
    let mut app = test_app(three_incidents(), None);
    assert!(!app.show_all_incidents);
    let effects = update(&mut app, Action::ShowAll);
    assert!(app.show_all_incidents);
    assert!(app.refreshing);
    assert_eq!(effects.len(), 1);
    match &effects[0] {
        Effect::Fetch { all_incidents } => assert!(all_incidents),
        _ => panic!("expected a fetch job"),
    }
    let effects = update(&mut app, Action::ShowAll);
    assert!(!app.show_all_incidents);
    match &effects[0] {
        Effect::Fetch { all_incidents } => assert!(!all_incidents),
        _ => panic!("expected a fetch job"),
    }
}

#[test]
fn update_incidents_launches_scoped_fetch() {
    let mut app = test_app(three_incidents(), None);
    let effects = update(&mut app, Action::UpdateIncidents);
    assert!(app.refreshing);
    assert_eq!(effects.len(), 1);
    match &effects[0] {
        Effect::Fetch { all_incidents } => assert!(!all_incidents),
        _ => panic!("expected a fetch job"),
    }
}

#[test]
fn open_builds_deep_link() {
    let mut app = test_app(three_incidents(), None);
    app.selected_index = 2;
    let effects = update(&mut app, Action::Open);
    assert_eq!(effects.len(), 1);
    match &effects[0] {
        Effect::OpenUrl { url } => {
            assert_eq!(url, "https://example.pagerduty.com/incidents/C3");
        },
        _ => panic!("expected an open-url request"),
    }
}

#[test]
fn quit_sets_flag() {
    let mut app = test_app(three_incidents(), None);
    let effects = update(&mut app, Action::Quit);
    assert!(app.should_quit);
    assert!(effects.is_empty());
}

#[test]
fn noop_changes_nothing() {
    let mut app = test_app(three_incidents(), None);
    let effects = update(&mut app, Action::Noop);
    assert!(effects.is_empty());
    assert_eq!(app.selected_index, 0);
    assert!(!app.refreshing);
    assert!(!app.should_quit);
}

#[test]
fn ticker_fires_once_per_period() {
    assert_eq!(REFRESH_RATE, 250);
    let mut app = test_app(three_incidents(), Some(60));
    let period = 60 * (1000 / 250) as usize;
    assert_eq!(period, 240);
    let mut fires = 0;
    for i in 1..=period {
        if app.tick() {
            fires += 1;
            assert_eq!(i, period);
            assert_eq!(app.ticker, 0);
        }
    }
    assert_eq!(fires, 1);
    assert!(app.refreshing);
    app.refreshing = false;
    for _ in 1..period {
        assert!(!app.tick());
    }
    assert!(app.tick());
    assert_eq!(app.ticker, 0);
}

#[test]
fn ticker_uses_default_interval_when_unset() {
    let mut app = test_app(three_incidents(), None);
    for _ in 1..240 {
        assert!(!app.tick());
    }
    assert!(app.tick());
}

#[test]
fn keymap_matches_bindings() {
    assert!(matches!(map_key(Key::Char('j')), Action::Increment));
    assert!(matches!(map_key(Key::Down), Action::Increment));
    assert!(matches!(map_key(Key::Char('k')), Action::Decrement));
    assert!(matches!(map_key(Key::Up), Action::Decrement));
    assert!(matches!(map_key(Key::Home), Action::Top));
    assert!(matches!(map_key(Key::Char('r')), Action::UpdateIncidents));
    assert!(matches!(map_key(Key::F(5)), Action::UpdateIncidents));
    assert!(matches!(map_key(Key::F(1)), Action::Noop));
    assert!(matches!(map_key(Key::Char('o')), Action::Open));
    assert!(matches!(map_key(Key::Enter), Action::Open));
    assert!(matches!(map_key(Key::Char(' ')), Action::Acknowledge));
    assert!(matches!(map_key(Key::Char('a')), Action::AcknowledgeAll));
    assert!(matches!(map_key(Key::Char('h')), Action::HideAck));
    assert!(matches!(map_key(Key::Char('g')), Action::ShowAll));
    assert!(matches!(map_key(Key::Char('q')), Action::Quit));
    assert!(matches!(map_key(Key::Esc), Action::Quit));
    assert!(matches!(map_key(Key::Char('z')), Action::Noop));
    assert!(matches!(map_key(Key::Other), Action::Noop));
}

#[test]
fn end_to_end_acknowledge_scenario() {
    let mut app = test_app(three_incidents(), None);
    update(&mut app, Action::Increment);
    assert_eq!(app.selected_index, 1);
    assert!(app.items[1].triggered);
    let effects = update(&mut app, Action::Acknowledge);
    assert!(!app.items[1].triggered);
    assert!(app.items[1].status.ends_with("\nSending Ack"));
    assert_eq!(app.selected_index, 1);
    assert_eq!(effects.len(), 1);
}

#[test]
fn failed_refresh_keeps_last_known_list_and_marks_stale() {
    let mut app = test_app(three_incidents(), None);
    app.selected_index = 2;
    app.refreshing = true;
    let effects = update(&mut app, Action::UpdateFailed);
    assert!(effects.is_empty());
    assert_eq!(app.items.len(), 3);
    assert_eq!(app.items[0].id, "A1");
    assert_eq!(app.selected_index, 2);
    assert!(!app.refreshing);
    assert!(app.stale);

    let replacement = vec![incident("N1", "gamma", "triggered", true)];
    update(&mut app, Action::UpdateResult(replacement));
    assert!(!app.stale);
    assert_eq!(app.items[0].id, "N1");
}
