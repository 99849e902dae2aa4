use pagerduty_tui::app::{constraint_len_calculator, is_visible};
use pagerduty_tui::pagerduty::{
    acknowledge_body, acknowledge_request_url, assemble_pages, auth_header_value, build_incident,
    build_incidents, current_user_request_url, incident_open_url, incidents_request_url,
    placeholder_incident, Incident, PagerDuty, RawIncident,
};
use pagerduty_tui::utils::{split_lines, split_str};

fn raw(summary: &str, status: &str) -> RawIncident {
    RawIncident {
        id: String::from("R1"),
        summary: String::from(summary),
        created_at: String::from("2024-05-06T07:08:09Z"),
        status: String::from(status),
        service: String::from("payments"),
        has_priority: false,
        assignee: None,
    }
}

#[test]
fn split_str_takes_prefix_and_marks_it() {
    assert_eq!(split_str(String::from("hello world"), 5), "hello...");
    assert_eq!(split_str(String::from("abc"), 3), "abc...");
    assert_eq!(split_str(String::from("día de sol"), 3), "día...");
}

#[test]
fn split_lines_matches_line_breaks() {
    assert_eq!(split_lines(""), Vec::<String>::new());
    assert_eq!(split_lines("one"), vec!["one"]);
    assert_eq!(split_lines("one\ntwo"), vec!["one", "two"]);
    assert_eq!(split_lines("one\r\ntwo\n"), vec!["one", "two"]);
    assert_eq!(split_lines("\n"), vec![""]);
}

#[test]
fn build_incident_prefixes_service_and_flags_triggered() {
    let inc = build_incident(raw("disk full", "triggered"), false);
    assert_eq!(inc.summary, "payments\ndisk full");
    assert_eq!(inc.service, "payments");
    assert_eq!(inc.status, "triggered");
    assert!(inc.triggered);
    assert_eq!(inc.created_at, "2024-05-06T07:08:09Z");
    assert_eq!(inc.id, "R1");
}

#[test]
fn build_incident_not_triggered_for_other_status() {
    let inc = build_incident(raw("disk full", "acknowledged"), false);
    assert!(!inc.triggered);
    assert_eq!(inc.status, "acknowledged");
}

#[test]
fn build_incident_truncates_long_summary() {
    let long = "x".repeat(101);
    let inc = build_incident(raw(&long, "triggered"), false);
    let expected = format!("payments\n{}...", "x".repeat(100));
    assert_eq!(inc.summary, expected);
    let exact = "y".repeat(100);
    let inc = build_incident(raw(&exact, "triggered"), false);
    assert_eq!(inc.summary, format!("payments\n{}", exact));
}

#[test]
fn build_incident_priority_overrides_display_status_only() {
    let mut r = raw("boom", "triggered");
    r.has_priority = true;
    let inc = build_incident(r, false);
    assert_eq!(inc.status, "/!\\ P1 /!\\");
    assert!(inc.triggered);

    let mut r = raw("boom", "acknowledged");
    r.has_priority = true;
    let inc = build_incident(r, false);
    assert_eq!(inc.status, "/!\\ P1 /!\\");
    assert!(!inc.triggered);
}

#[test]
fn build_incident_annotates_assignee_in_wide_view() {
    let mut r = raw("boom", "triggered");
    r.assignee = Some(String::from("Sam Rivers"));
    let inc = build_incident(r, true);
    assert_eq!(inc.created_at, "2024-05-06T07:08:09Z\nSam Rivers");

    let r = raw("boom", "triggered");
    let inc = build_incident(r, true);
    assert_eq!(inc.created_at, "2024-05-06T07:08:09Z\n----------");

    let mut r = raw("boom", "triggered");
    r.assignee = Some(String::from("Sam Rivers"));
    let inc = build_incident(r, false);
    assert_eq!(inc.created_at, "2024-05-06T07:08:09Z");
}

#[test]
fn build_incidents_empty_gives_placeholder() {
    let rows = build_incidents(Vec::new(), false);
    assert_eq!(rows.len(), 1);
    assert_eq!(rows[0].summary, " - NO INCIDENTS | TIME FOR A BREAK - ");
    assert_eq!(rows[0].status, "---------");
    assert_eq!(rows[0].service, "");
    assert!(!rows[0].triggered);
}

#[test]
fn build_incidents_keeps_order() {
    let rows = build_incidents(vec![raw("a", "triggered"), raw("b", "acknowledged")], false);
    assert_eq!(rows.len(), 2);
    assert_eq!(rows[0].summary, "payments\na");
    assert_eq!(rows[1].summary, "payments\nb");
}

#[test]
fn placeholder_matches_spec() {
    let p = placeholder_incident();
    assert_eq!(p.id, "---------");
    assert_eq!(p.created_at, "---------");
    assert!(!p.triggered);
}

#[test]
fn constraint_lens_measure_columns() {
    let items = vec![
        Incident {
            id: String::from("w1"),
            summary: String::from("ab\ncdef"),
            service: String::from("s"),
            status: String::from("abc"),
            created_at: String::from("x"),
            triggered: true,
        },
        Incident {
            id: String::from("w2"),
            summary: String::from("z"),
            service: String::from("s"),
            status: String::from("ok"),
            created_at: String::from("wide"),
            triggered: false,
        },
    ];
    let (status_w, summary_w, created_w) = constraint_len_calculator(&items);
    assert_eq!(status_w, 3);
    assert_eq!(summary_w, 4);
    assert_eq!(created_w, 4);
}

#[test]
fn constraint_lens_use_display_width_not_byte_length() {
    let items = vec![Incident {
        id: String::from("w3"),
        summary: String::from("日本"),
        service: String::from("s"),
        status: String::from("日"),
        created_at: String::from("é"),
        triggered: true,
    }];
    let (status_w, summary_w, created_w) = constraint_len_calculator(&items);
    assert_eq!(status_w, 2);
    assert_eq!(summary_w, 4);
    assert_eq!(created_w, 1);
}

#[test]
fn visibility_follows_hide_toggle() {
    let shown = build_incident(raw("a", "triggered"), false);
    let acked = build_incident(raw("a", "acknowledged"), false);
    assert!(is_visible(&shown, false));
    assert!(is_visible(&shown, true));
    assert!(is_visible(&acked, false));
    assert!(!is_visible(&acked, true));
}

#[test]
fn request_urls_match_provider_api() {
    assert_eq!(
        incidents_request_url(false, "triggered", "USER9"),
        "https://api.pagerduty.com/incidents?statuses[]=triggered&user_ids[]=USER9&limit=100"
    );
    assert_eq!(
        incidents_request_url(true, "acknowledged", "USER9"),
        "https://api.pagerduty.com/incidents?statuses[]=acknowledged&limit=100"
    );
    assert_eq!(
        current_user_request_url(),
        "https://api.pagerduty.com/users/me"
    );
    assert_eq!(
        acknowledge_request_url("ZZTOP"),
        "https://api.pagerduty.com/incidents/ZZTOP"
    );
    assert_eq!(auth_header_value("sk"), "Token token=sk");
    assert_eq!(
        incident_open_url("corp", "AB12"),
        "https://corp.pagerduty.com/incidents/AB12"
    );
    assert!(acknowledge_body().contains("\"status\": \"acknowledged\""));
}

#[test]
fn pagerduty_handle_exposes_plain_values() {
    let pd = PagerDuty::new("corp", "secret", String::from("ME1"));
    assert_eq!(pd.get_pagerduty_domain(), "corp");
    assert_eq!(pd.get_pagerduty_api_key(), "secret");
    assert_eq!(pd.get_current_user_id(), "ME1");
}

#[test]
fn incident_accessors_expose_cells() {
    let inc = build_incident(raw("a", "triggered"), false);
    assert_eq!(inc.status(), "triggered");
    assert_eq!(inc.summary(), "payments\na");
    assert_eq!(inc.created_at(), "2024-05-06T07:08:09Z");
    assert_eq!(inc.id(), "R1");
    assert!(*inc.triggered());
    let cells = inc.ref_array();
    assert_eq!(cells[0], "triggered");
    assert_eq!(cells[1], "payments\na");
    assert_eq!(cells[2], "2024-05-06T07:08:09Z");
}

#[test]
fn config_exposes_plain_values() {
    let config = pagerduty_tui::config::AppConfig::new(
        String::from("corp"),
        String::from("sk"),
        Some(30),
    );
    assert_eq!(config.get_pagerduty_domain(), "corp");
    assert_eq!(config.get_pagerduty_api_key(), "sk");
    assert_eq!(*config.get_refresh_rate(), Some(30));
}

#[test]
fn assemble_pages_orders_triggered_first_each_reversed() {
    let mut trig_new = raw("t-new", "triggered");
    trig_new.id = String::from("T2");
    let mut trig_old = raw("t-old", "triggered");
    trig_old.id = String::from("T1");
    let mut ack_new = raw("a-new", "acknowledged");
    ack_new.id = String::from("K2");
    let mut ack_old = raw("a-old", "acknowledged");
    ack_old.id = String::from("K1");

    // the provider lists newest first within each page
    let joined = assemble_pages(vec![trig_new, trig_old], vec![ack_new, ack_old]);
    let ids: Vec<&str> = joined.iter().map(|r| r.id.as_str()).collect();
    assert_eq!(ids, vec!["T1", "T2", "K1", "K2"]);

    let empty = assemble_pages(Vec::new(), Vec::new());
    assert!(empty.is_empty());
}
