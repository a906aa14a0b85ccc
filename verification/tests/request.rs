use identity_client::request::{build_runner_request, IdentityRequest};

#[test]
fn new_request_is_empty() {
    let req = IdentityRequest::new();
    assert_eq!(req.instance_id, None);
    assert_eq!(req.timestamp, None);
    assert!(req.is_empty());
}

#[test]
fn with_instance_id_sets_only_that_field() {
    let req = IdentityRequest::new().with_instance_id(42);
    assert_eq!(req.instance_id, Some(42));
    assert_eq!(req.timestamp, None);
    assert!(!req.is_empty());
}

#[test]
fn with_timestamp_sets_only_that_field() {
    let req = IdentityRequest::new().with_timestamp(1738512000);
    assert_eq!(req.instance_id, None);
    assert_eq!(req.timestamp, Some(1738512000));
}

#[test]
fn builder_accumulates_fields() {
    let req = IdentityRequest::new().with_instance_id(7).with_timestamp(9);
    assert_eq!(req, IdentityRequest { instance_id: Some(7), timestamp: Some(9) });
    let again = req.with_instance_id(8);
    assert_eq!(again, IdentityRequest { instance_id: Some(8), timestamp: Some(9) });
    assert_eq!(req.instance_id, Some(7));
}

#[test]
fn current_timestamp_is_taken_from_the_clock() {
    let req = IdentityRequest::new().with_instance_id(u64::MAX).with_current_timestamp();
    assert_eq!(req.instance_id, Some(u64::MAX));
    let stamp = req.timestamp.expect("the timestamp is set");
    assert!(stamp > 1_000_000_000);
}

#[test]
fn current_timestamp_replaces_an_earlier_one() {
    let req = IdentityRequest::new().with_timestamp(1).with_current_timestamp();
    assert!(req.timestamp.unwrap() > 1);
}

#[test]
fn no_context_gives_no_request() {
    assert_eq!(build_runner_request(None, false), None);
}

#[test]
fn instance_id_alone_gives_request_without_timestamp() {
    assert_eq!(
        build_runner_request(Some(5), false),
        Some(IdentityRequest { instance_id: Some(5), timestamp: None })
    );
}

#[test]
fn timestamp_alone_gives_request_without_instance_id() {
    let req = build_runner_request(None, true).expect("a request");
    assert_eq!(req.instance_id, None);
    assert!(req.timestamp.is_some());
}

#[test]
fn both_parts_give_request_with_both() {
    let req = build_runner_request(Some(0), true).expect("a request");
    assert_eq!(req.instance_id, Some(0));
    assert!(req.timestamp.is_some());
}
