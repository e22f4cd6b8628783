use parsel::panel::{ActivePanel, BodyMode, Mode};
use parsel::request::HttpMethod;

const PANELS: [ActivePanel; 6] = [
    ActivePanel::Url,
    ActivePanel::ReqQuery,
    ActivePanel::ReqHeaders,
    ActivePanel::ReqBody,
    ActivePanel::ResHeaders,
    ActivePanel::ResBody,
];

const METHODS: [HttpMethod; 9] = [
    HttpMethod::Get,
    HttpMethod::Post,
    HttpMethod::Put,
    HttpMethod::Delete,
    HttpMethod::Patch,
    HttpMethod::Head,
    HttpMethod::Options,
    HttpMethod::Connect,
    HttpMethod::Trace,
];

#[test]
fn six_steps_forward_close_the_ring() {
    for start in PANELS {
        let mut panel = start;
        for step in 1..=6 {
            panel = panel.next();
            assert_eq!(panel == start, step == 6);
        }
    }
}

#[test]
fn panels_follow_the_ring_order() {
    for i in 0..6 {
        assert_eq!(PANELS[i].next(), PANELS[(i + 1) % 6]);
        assert_eq!(PANELS[i].prev(), PANELS[(i + 5) % 6]);
        assert_eq!(PANELS[i].next().prev(), PANELS[i]);
    }
}

#[test]
fn request_panels_are_editable() {
    assert!(ActivePanel::Url.is_editable());
    assert!(ActivePanel::ReqQuery.is_editable());
    assert!(ActivePanel::ReqHeaders.is_editable());
    assert!(ActivePanel::ReqBody.is_editable());
    assert!(!ActivePanel::ResHeaders.is_editable());
    assert!(!ActivePanel::ResBody.is_editable());
}

#[test]
fn methods_cycle_through_nine_verbs() {
    for i in 0..9 {
        assert_eq!(METHODS[i].next(), METHODS[(i + 1) % 9]);
        assert_eq!(METHODS[i].prev(), METHODS[(i + 8) % 9]);
    }
    let labels: Vec<&str> = METHODS.iter().map(|m| m.label()).collect();
    assert_eq!(
        labels,
        vec!["GET", "POST", "PUT", "DELETE", "PATCH", "HEAD", "OPTIONS", "CONNECT", "TRACE"]
    );
}

#[test]
fn defaults_are_normal_json_url_get() {
    assert_eq!(Mode::default(), Mode::Normal);
    assert_eq!(BodyMode::default(), BodyMode::Json);
    assert_eq!(ActivePanel::default(), ActivePanel::Url);
    assert_eq!(HttpMethod::default(), HttpMethod::Get);
}

#[test]
fn body_mode_toggles_and_names_its_content_type() {
    assert_eq!(BodyMode::Json.toggled(), BodyMode::Form);
    assert_eq!(BodyMode::Form.toggled(), BodyMode::Json);
    assert_eq!(BodyMode::Json.content_type(), "application/json");
    assert_eq!(BodyMode::Form.content_type(), "application/x-www-form-urlencoded");
}
