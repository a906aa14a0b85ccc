use identity_client::call::{Action, Call, Event, Phase};
use identity_client::client::{Client, ClientBuilder, DEFAULT_SOCKET_PATH, DEFAULT_TIMEOUT_MS};
use identity_client::error::{ClientError, Field, IoCause, ProtocolError, Stage};
use identity_client::request::IdentityRequest;
use identity_client::response::IdentityResponse;

const FLAT: &[u8] = br#"{"identity":"svc-a","idm_url":"https://idm","config_url":"https://cfg","token":"tok123","process":"worker","pid":42,"uid":1000,"gid":1000}"#;

fn client(timeout_ms: u64) -> Client {
    Client::builder().socket_path("/tmp/test.sock").timeout_ms(timeout_ms).build()
}

fn exchange(call: Call, reply: &[u8], at: [u64; 4]) -> Result<IdentityResponse, ClientError> {
    exchange_in_pieces(call, &[reply], at)
}

fn exchange_in_pieces(
    mut call: Call,
    pieces: &[&[u8]],
    at: [u64; 4],
) -> Result<IdentityResponse, ClientError> {
    call.step(Event::Started, 0);
    call.step(Event::Connected, at[0]);
    call.step(Event::Sent, at[1]);
    for piece in pieces {
        call.step(Event::Data(piece.to_vec()), at[1]);
    }
    call.step(Event::EndOfReply, at[2]);
    assert_eq!(call.step(Event::Closed, at[3]), Action::Finish);
    call.finish().expect("the call has ended")
}

#[test]
fn default_client_has_default_settings() {
    let c = Client::new();
    assert_eq!(c.socket_path(), "/var/run/whoami.sock");
    assert_eq!(c.socket_path(), DEFAULT_SOCKET_PATH);
    assert_eq!(c.timeout_ms(), 5000);
    assert_eq!(c.timeout_ms(), DEFAULT_TIMEOUT_MS);
}

#[test]
fn builder_overrides_settings() {
    let c = Client::builder().socket_path("/tmp/test.sock").timeout_secs(10).build();
    assert_eq!(c.socket_path(), "/tmp/test.sock");
    assert_eq!(c.timeout_ms(), 10_000);
    let c = ClientBuilder::new().timeout_ms(1).build();
    assert_eq!(c.socket_path(), "/var/run/whoami.sock");
    assert_eq!(c.timeout_ms(), 1);
}

#[test]
fn timeout_in_seconds_saturates() {
    assert_eq!(Client::builder().timeout_secs(u64::MAX / 1000).build().timeout_ms(), u64::MAX / 1000 * 1000);
    assert_eq!(Client::builder().timeout_secs(u64::MAX / 1000 + 1).build().timeout_ms(), u64::MAX);
    assert_eq!(Client::builder().timeout_secs(u64::MAX).build().timeout_ms(), u64::MAX);
    assert_eq!(Client::builder().timeout_secs(0).build().timeout_ms(), 0);
}

#[test]
fn get_identity_sends_nothing() {
    let call = client(5000).get_identity();
    assert_eq!(call.phase(), Phase::Idle);
    assert_eq!(call.socket_path(), "/tmp/test.sock");
    assert_eq!(call.limit_ms(), 5000);
    assert!(call.payload().is_empty());
    let call = client(5000).get_identity_with_runner(None);
    assert!(call.payload().is_empty());
    let call = client(5000).get_identity_with_runner(Some(IdentityRequest::new()));
    assert!(call.payload().is_empty());
}

#[test]
fn get_identity_with_runner_sends_the_context() {
    let req = IdentityRequest::new().with_instance_id(42);
    let call = client(5000).get_identity_with_runner(Some(req));
    assert_eq!(call.payload().as_slice(), br#"{"runner":{"instance_id":42}}"#);
    assert_eq!(call.phase(), Phase::Idle);
}

#[test]
fn exchange_goes_through_every_phase() {
    let request = IdentityRequest::new().with_timestamp(1738512000);
    let mut call = client(5000).get_identity_with_runner(Some(request));
    assert_eq!(call.phase(), Phase::Idle);
    assert!(client(5000).get_identity().finish().is_none());
    assert_eq!(call.step(Event::Started, 0), Action::Connect { budget_ms: 5000 });
    assert_eq!(call.phase(), Phase::Connecting);
    assert_eq!(call.step(Event::Connected, 10), Action::Send { budget_ms: 4990, half_close: true });
    assert_eq!(call.phase(), Phase::Sending);
    assert_eq!(call.step(Event::Sent, 25), Action::Receive { budget_ms: 4975 });
    assert_eq!(call.phase(), Phase::AwaitingReply);
    assert_eq!(call.step(Event::Data(FLAT[..10].to_vec()), 30), Action::Receive { budget_ms: 4970 });
    assert_eq!(call.phase(), Phase::AwaitingReply);
    assert_eq!(call.step(Event::Data(FLAT[10..].to_vec()), 4999), Action::Receive { budget_ms: 1 });
    assert_eq!(call.phase(), Phase::AwaitingReply);
    assert_eq!(call.step(Event::EndOfReply, 5000), Action::Close);
    assert_eq!(call.phase(), Phase::Decoding);
    assert_eq!(call.step(Event::Closed, 9999), Action::Finish);
    assert_eq!(call.phase(), Phase::Succeeded);
    let response = call.finish().unwrap().unwrap();
    assert_eq!(response.identity, "svc-a");
    assert_eq!(response.idm_url, "https://idm");
    assert_eq!(response.config_url, "https://cfg");
    assert_eq!(response.token, "tok123");
    assert_eq!(response.process, "worker");
    assert_eq!((response.pid, response.uid, response.gid), (42, 1000, 1000));
    assert_eq!(response.runner, None);
}

#[test]
fn query_without_context_does_not_half_close() {
    let mut call = client(100).get_identity();
    call.step(Event::Started, 0);
    assert_eq!(call.step(Event::Connected, 0), Action::Send { budget_ms: 100, half_close: false });
}

#[test]
fn end_to_end_example() {
    let response = exchange(client(5000).get_identity(), FLAT, [1, 2, 3, 4]).unwrap();
    assert_eq!(
        response,
        IdentityResponse {
            identity: "svc-a".to_string(),
            idm_url: "https://idm".to_string(),
            config_url: "https://cfg".to_string(),
            token: "tok123".to_string(),
            process: "worker".to_string(),
            pid: 42,
            uid: 1000,
            gid: 1000,
            runner: None,
        }
    );
}

#[test]
fn outcome_does_not_depend_on_timing_or_request() {
    let plain = exchange(client(5000).get_identity(), FLAT, [0, 0, 0, 0]);
    let slow = exchange(client(5000).get_identity(), FLAT, [4999, 4999, 5000, 70_000]);
    let with_context = exchange(
        client(30).get_identity_with_runner(Some(IdentityRequest::new().with_instance_id(1))),
        FLAT,
        [10, 20, 30, 40],
    );
    assert!(plain.is_ok());
    assert_eq!(plain, slow);
    assert_eq!(plain, with_context);
}

#[test]
fn reply_at_the_deadline_is_accepted() {
    assert!(exchange(client(50).get_identity(), FLAT, [1, 2, 50, 51]).is_ok());
}

#[test]
fn reply_after_the_deadline_times_out() {
    let mut call = client(50).get_identity();
    call.step(Event::Started, 0);
    call.step(Event::Connected, 1);
    call.step(Event::Sent, 2);
    assert_eq!(call.step(Event::Data(FLAT.to_vec()), 3), Action::Receive { budget_ms: 47 });
    assert_eq!(call.step(Event::EndOfReply, 51), Action::Close);
    assert_eq!(call.phase(), Phase::Failed);
    assert_eq!(call.step(Event::Closed, 52), Action::Finish);
    assert_eq!(call.finish(), Some(Err(ClientError::Timeout { limit_ms: 50 })));
}

#[test]
fn step_that_uses_up_the_deadline_times_out() {
    let mut call = client(50).get_identity();
    call.step(Event::Started, 0);
    assert_eq!(call.step(Event::Connected, 50), Action::Close);
    assert_eq!(call.finish(), Some(Err(ClientError::Timeout { limit_ms: 50 })));

    let mut call = client(50).get_identity();
    call.step(Event::Started, 0);
    call.step(Event::Connected, 49);
    assert_eq!(call.step(Event::Sent, 50), Action::Close);
    assert_eq!(call.finish(), Some(Err(ClientError::Timeout { limit_ms: 50 })));
}

#[test]
fn expired_step_times_out_in_every_phase() {
    for steps in 0..3 {
        let mut call = client(50).get_identity();
        call.step(Event::Started, 0);
        if steps > 0 {
            call.step(Event::Connected, 1);
        }
        if steps > 1 {
            call.step(Event::Sent, 2);
        }
        assert_eq!(call.step(Event::Expired, 3), Action::Close);
        assert_eq!(call.step(Event::Closed, 3), Action::Finish);
        assert_eq!(call.finish(), Some(Err(ClientError::Timeout { limit_ms: 50 })));
    }
}

#[test]
fn zero_deadline_times_out_at_once() {
    let mut call = client(0).get_identity();
    assert_eq!(call.step(Event::Started, 0), Action::Finish);
    assert_eq!(call.finish(), Some(Err(ClientError::Timeout { limit_ms: 0 })));
}

#[test]
fn socket_failures_carry_stage_and_cause() {
    let mut call = client(50).get_identity();
    call.step(Event::Started, 0);
    assert_eq!(call.step(Event::Failed(IoCause::NotFound), 1), Action::Close);
    assert_eq!(call.step(Event::Closed, 1), Action::Finish);
    assert_eq!(
        call.finish(),
        Some(Err(ClientError::Connection { stage: Stage::Connect, cause: IoCause::NotFound }))
    );

    let mut call = client(50).get_identity();
    call.step(Event::Started, 0);
    call.step(Event::Connected, 1);
    call.step(Event::Failed(IoCause::BrokenPipe), 2);
    assert_eq!(
        call.finish(),
        Some(Err(ClientError::Connection { stage: Stage::Send, cause: IoCause::BrokenPipe }))
    );

    let mut call = client(50).get_identity();
    call.step(Event::Started, 0);
    call.step(Event::Connected, 1);
    call.step(Event::Sent, 2);
    call.step(Event::Failed(IoCause::Reset), 3);
    assert_eq!(
        call.finish(),
        Some(Err(ClientError::Connection { stage: Stage::Receive, cause: IoCause::Reset }))
    );
}

#[test]
fn failure_after_the_deadline_is_a_timeout() {
    let mut call = client(50).get_identity();
    call.step(Event::Started, 0);
    call.step(Event::Failed(IoCause::Refused), 51);
    assert_eq!(call.finish(), Some(Err(ClientError::Timeout { limit_ms: 50 })));
}

#[test]
fn malformed_reply_is_a_protocol_error() {
    assert_eq!(
        exchange(client(50).get_identity(), b"not json", [1, 2, 3, 4]),
        Err(ClientError::Protocol(ProtocolError::Malformed))
    );
    assert_eq!(
        exchange(client(50).get_identity(), b"", [1, 2, 3, 4]),
        Err(ClientError::Protocol(ProtocolError::Malformed))
    );
    assert_eq!(
        exchange(client(50).get_identity(), &FLAT[..FLAT.len() - 1], [1, 2, 3, 4]),
        Err(ClientError::Protocol(ProtocolError::Malformed))
    );
    assert_eq!(
        exchange(client(50).get_identity(), br#"{"identity":"a"}"#, [1, 2, 3, 4]),
        Err(ClientError::Protocol(ProtocolError::MissingField(Field::IdmUrl)))
    );
}

#[test]
fn reports_out_of_order_fail_the_call() {
    let mut call = client(50).get_identity();
    assert_eq!(call.step(Event::Connected, 0), Action::Finish);
    assert_eq!(
        call.finish(),
        Some(Err(ClientError::Connection { stage: Stage::Connect, cause: IoCause::Other }))
    );

    let mut call = client(50).get_identity();
    call.step(Event::Started, 0);
    assert_eq!(call.step(Event::Data(FLAT.to_vec()), 1), Action::Close);
    assert_eq!(
        call.finish(),
        Some(Err(ClientError::Connection { stage: Stage::Connect, cause: IoCause::Other }))
    );

    let mut call = client(50).get_identity();
    call.step(Event::Started, 0);
    call.step(Event::Connected, 1);
    assert_eq!(call.step(Event::Started, 1), Action::Close);
    assert_eq!(
        call.finish(),
        Some(Err(ClientError::Connection { stage: Stage::Send, cause: IoCause::Other }))
    );
}

#[test]
fn ended_call_stays_as_it_is() {
    let mut call = client(50).get_identity();
    call.step(Event::Started, 0);
    call.step(Event::Failed(IoCause::PermissionDenied), 1);
    for event in [
        Event::Started,
        Event::Connected,
        Event::Data(FLAT.to_vec()),
        Event::EndOfReply,
        Event::Closed,
        Event::Expired,
    ] {
        assert_eq!(call.step(event, 0), Action::Finish);
        assert_eq!(call.phase(), Phase::Failed);
    }
    assert_eq!(
        call.finish(),
        Some(Err(ClientError::Connection { stage: Stage::Connect, cause: IoCause::PermissionDenied }))
    );
}

#[test]
fn call_under_way_has_no_result() {
    let mut call = client(50).get_identity();
    call.step(Event::Started, 0);
    call.step(Event::Connected, 1);
    assert_eq!(call.finish(), None);
}

#[test]
fn reply_is_put_together_from_its_pieces() {
    let whole = exchange(client(50).get_identity(), FLAT, [1, 2, 3, 4]);
    assert!(whole.is_ok());
    let halves = exchange_in_pieces(client(50).get_identity(), &[&FLAT[..70], &FLAT[70..]], [1, 2, 3, 4]);
    assert_eq!(whole, halves);
    let bytes: Vec<&[u8]> = FLAT.chunks(1).collect();
    assert_eq!(whole, exchange_in_pieces(client(50).get_identity(), &bytes, [1, 2, 3, 4]));
    let with_empty = exchange_in_pieces(client(50).get_identity(), &[b"", FLAT, b""], [1, 2, 3, 4]);
    assert_eq!(whole, with_empty);
}

#[test]
fn pieces_out_of_order_do_not_decode() {
    let swapped = exchange_in_pieces(client(50).get_identity(), &[&FLAT[70..], &FLAT[..70]], [1, 2, 3, 4]);
    assert_eq!(swapped, Err(ClientError::Protocol(ProtocolError::Malformed)));
}

#[test]
fn reply_without_any_piece_is_malformed() {
    let nothing = exchange_in_pieces(client(50).get_identity(), &[], [1, 2, 3, 4]);
    assert_eq!(nothing, Err(ClientError::Protocol(ProtocolError::Malformed)));
}

#[test]
fn incomplete_reply_is_dropped_at_the_deadline() {
    let mut call = client(50).get_identity();
    call.step(Event::Started, 0);
    call.step(Event::Connected, 1);
    call.step(Event::Sent, 2);
    assert_eq!(call.step(Event::Data(FLAT[..20].to_vec()), 10), Action::Receive { budget_ms: 40 });
    assert_eq!(call.step(Event::Data(FLAT[20..].to_vec()), 50), Action::Close);
    assert_eq!(call.phase(), Phase::Failed);
    assert_eq!(call.step(Event::EndOfReply, 50), Action::Finish);
    assert_eq!(call.finish(), Some(Err(ClientError::Timeout { limit_ms: 50 })));
}

#[test]
fn earlier_pieces_do_not_leak_into_a_later_call() {
    let c = client(50);
    let first = exchange(c.get_identity(), FLAT, [1, 2, 3, 4]);
    let second = exchange(c.get_identity(), FLAT, [1, 2, 3, 4]);
    assert_eq!(first, second);
}

#[test]
fn replay_takes_the_reports_in_order() {
    let mut stepped = client(50).get_identity();
    stepped.step(Event::Started, 0);
    stepped.step(Event::Connected, 1);
    stepped.step(Event::Sent, 2);
    stepped.step(Event::Data(FLAT.to_vec()), 3);
    stepped.step(Event::EndOfReply, 4);
    let last = stepped.step(Event::Closed, 5);

    let mut replayed = client(50).get_identity();
    let reports = vec![
        (Event::Started, 0),
        (Event::Connected, 1),
        (Event::Sent, 2),
        (Event::Data(FLAT.to_vec()), 3),
        (Event::EndOfReply, 4),
        (Event::Closed, 5),
    ];
    assert_eq!(replayed.replay(reports), Some(last));
    assert_eq!(replayed.phase(), Phase::Succeeded);
    assert_eq!(replayed.finish(), stepped.finish());
}

#[test]
fn replay_of_nothing_changes_nothing() {
    let mut call = client(50).get_identity();
    assert_eq!(call.replay(vec![]), None);
    assert_eq!(call.phase(), Phase::Idle);
}

#[test]
fn replay_stops_changing_once_the_call_has_ended() {
    let mut call = client(50).get_identity();
    let last = call.replay(vec![
        (Event::Started, 0),
        (Event::Failed(IoCause::Refused), 1),
        (Event::Closed, 2),
        (Event::Connected, 3),
        (Event::Data(FLAT.to_vec()), 4),
    ]);
    assert_eq!(last, Some(Action::Finish));
    assert_eq!(
        call.finish(),
        Some(Err(ClientError::Connection { stage: Stage::Connect, cause: IoCause::Refused }))
    );
}
