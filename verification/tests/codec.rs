use identity_client::decode::{decode, decode_text};
use identity_client::encode::{encode, encode_text};
use identity_client::error::{Field, ProtocolError};
use identity_client::json::parser::parse;
use identity_client::request::IdentityRequest;
use identity_client::response::{IdentityResponse, RunnerInfo};

fn flat_sample() -> IdentityResponse {
    IdentityResponse {
        identity: "svc-a".to_string(),
        idm_url: "https://idm".to_string(),
        config_url: "https://cfg".to_string(),
        token: "tok123".to_string(),
        process: "worker".to_string(),
        pid: 42,
        uid: 1000,
        gid: 1000,
        runner: None,
    }
}

fn nested_sample(instance_id: Option<u64>, timestamp: Option<u64>) -> IdentityResponse {
    let mut r = flat_sample();
    r.runner = Some(RunnerInfo {
        hostname: "worker-01".to_string(),
        process: "worker".to_string(),
        pid: 42,
        uid: 1000,
        gid: 1000,
        instance_id,
        timestamp,
    });
    r
}

const BASE: &str = r#""identity":"svc-a","idm_url":"https://idm","config_url":"https://cfg","token":"tok123""#;

fn with_base(rest: &str) -> String {
    format!("{{{BASE},{rest}}}")
}

#[test]
fn absent_request_encodes_to_nothing() {
    assert_eq!(encode(None), Vec::<u8>::new());
    assert_eq!(encode_text(None), "");
}

#[test]
fn empty_request_encodes_to_nothing() {
    assert_eq!(encode_text(Some(IdentityRequest::new())), "");
    assert_eq!(encode(Some(IdentityRequest::new())), Vec::<u8>::new());
}

#[test]
fn request_value_keeps_only_what_is_set() {
    assert_eq!(IdentityRequest::new().to_json().to_text(), r#"{"runner":{}}"#);
    assert_eq!(
        IdentityRequest::new().with_timestamp(3).to_json().to_text(),
        r#"{"runner":{"timestamp":3}}"#
    );
}

#[test]
fn request_with_instance_id_omits_timestamp() {
    let req = IdentityRequest::new().with_instance_id(42);
    assert_eq!(encode_text(Some(req)), r#"{"runner":{"instance_id":42}}"#);
}

#[test]
fn request_with_timestamp_omits_instance_id() {
    let req = IdentityRequest::new().with_timestamp(1738512000);
    assert_eq!(encode_text(Some(req)), r#"{"runner":{"timestamp":1738512000}}"#);
}

#[test]
fn request_with_both_fields_encodes_both() {
    let req = IdentityRequest::new().with_instance_id(42).with_timestamp(1738512000);
    assert_eq!(
        encode(Some(req)),
        br#"{"runner":{"instance_id":42,"timestamp":1738512000}}"#.to_vec()
    );
}

#[test]
fn request_encodes_extreme_numbers() {
    let req = IdentityRequest::new().with_instance_id(0).with_timestamp(u64::MAX);
    assert_eq!(
        encode_text(Some(req)),
        r#"{"runner":{"instance_id":0,"timestamp":18446744073709551615}}"#
    );
}

#[test]
fn encoding_matches_what_getmyid_sends() {
    let cases = [
        (Some(42u64), None),
        (None, Some(1738512000u64)),
        (Some(u64::MAX), Some(0)),
    ];
    for (instance_id, timestamp) in cases {
        let mut theirs = getmyid::RunnerRequest::new();
        let mut ours = IdentityRequest::new();
        if let Some(id) = instance_id {
            theirs = theirs.with_instance_id(id);
            ours = ours.with_instance_id(id);
        }
        if let Some(ts) = timestamp {
            theirs = theirs.with_timestamp(ts);
            ours = ours.with_timestamp(ts);
        }
        let mut envelope = serde_json::Map::new();
        envelope.insert("runner".to_string(), serde_json::to_value(&theirs).unwrap());
        let expected = serde_json::to_string(&serde_json::Value::Object(envelope)).unwrap();
        assert_eq!(encode_text(Some(ours)), expected);
    }
}

#[test]
fn encoded_request_parses_back() {
    let req = IdentityRequest::new().with_instance_id(3);
    let text = encode_text(Some(req));
    assert_eq!(parse(&text), Some(req.to_json()));
}

#[test]
fn flat_reply_decodes_without_runner() {
    let reply = br#"{"identity":"svc-a","idm_url":"https://idm","config_url":"https://cfg","token":"tok123","process":"worker","pid":42,"uid":1000,"gid":1000}"#;
    let r = decode(reply).unwrap();
    assert_eq!(r.identity, "svc-a");
    assert_eq!(r.idm_url, "https://idm");
    assert_eq!(r.config_url, "https://cfg");
    assert_eq!(r.token, "tok123");
    assert_eq!(r.process, "worker");
    assert_eq!(r.pid, 42);
    assert_eq!(r.uid, 1000);
    assert_eq!(r.gid, 1000);
    assert!(r.runner.is_none());
    assert_eq!(r, flat_sample());
}

#[test]
fn nested_reply_decodes_with_runner() {
    let reply = with_base(
        r#""runner":{"hostname":"worker-01","process":"worker","pid":42,"uid":1000,"gid":1000,"instance_id":7,"timestamp":1738512000}"#,
    );
    assert_eq!(decode(reply.as_bytes()), Ok(nested_sample(Some(7), Some(1738512000))));
}

#[test]
fn nested_reply_without_echo_has_no_echo() {
    let reply = with_base(
        r#""runner":{"hostname":"worker-01","process":"worker","pid":42,"uid":1000,"gid":1000}"#,
    );
    let r = decode(reply.as_bytes()).unwrap();
    let runner = r.runner.unwrap();
    assert_eq!(runner.instance_id, None);
    assert_eq!(runner.timestamp, None);
}

#[test]
fn null_echo_counts_as_absent() {
    let reply = with_base(
        r#""runner":{"hostname":"h","process":"p","pid":1,"uid":2,"gid":3,"instance_id":null,"timestamp":null}"#,
    );
    let runner = decode(reply.as_bytes()).unwrap().runner.unwrap();
    assert_eq!(runner.instance_id, None);
    assert_eq!(runner.timestamp, None);
}

#[test]
fn both_shapes_agree_on_shared_fields() {
    let flat = decode(flat_sample().to_json().to_text().as_bytes()).unwrap();
    let mut nested = decode(nested_sample(Some(1), None).to_json().to_text().as_bytes()).unwrap();
    assert!(nested.runner.is_some());
    nested.runner = None;
    assert_eq!(flat, nested);
}

#[test]
fn daemon_reply_with_status_and_extras_decodes() {
    let reply = r#"{"status":"ok","identity":"BILLING_PROD","idm_url":"https://auth.example.com/oauth2/billing","config_url":"https://config.example.com/api/billing","token":"tok_billing_xxx","runner":{"identity":"BILLING_PROD","hostname":"worker-01","process":"billing-app","pid":1234,"uid":1001,"gid":1001}}"#;
    let identity = decode_text(reply).unwrap();
    assert_eq!(identity.identity, "BILLING_PROD");
    assert_eq!(identity.idm_url, "https://auth.example.com/oauth2/billing");
    assert_eq!(identity.config_url, "https://config.example.com/api/billing");
    assert_eq!(identity.token, "tok_billing_xxx");
    let runner = identity.runner.unwrap();
    assert_eq!(runner.hostname, "worker-01");
    assert_eq!(runner.process, "billing-app");
    assert_eq!(runner.pid, 1234);
    assert_eq!(runner.uid, 1001);
    assert_eq!(runner.gid, 1001);
    assert_eq!(identity.process, "billing-app");
    assert_eq!(identity.pid, 1234);
}

#[test]
fn daemon_reply_with_instance_id_decodes() {
    let reply = r#"{"status":"ok","identity":"TRUSTEE_AGENT","idm_url":"https://auth.example.com/oauth2/trustee","config_url":"https://config.example.com/api/trustee","token":"tok_trustee_xxx","runner":{"instance_id":42,"timestamp":1738512000,"identity":"TRUSTEE_AGENT","hostname":"worker-03","process":"trustee","pid":26567,"uid":1000,"gid":1000}}"#;
    let identity = decode_text(reply).unwrap();
    assert_eq!(identity.identity, "TRUSTEE_AGENT");
    let runner = identity.runner.unwrap();
    assert_eq!(runner.instance_id, Some(42));
    assert_eq!(runner.timestamp, Some(1738512000));
    assert_eq!(runner.hostname, "worker-03");
    assert_eq!(runner.pid, 26567);
}

#[test]
fn daemon_error_reply_is_a_protocol_error() {
    let reply = r#"{"status":"error","error_code":"E_NO_MATCH","message":"No identity rule matches process 'unknown' (uid=1000)"}"#;
    assert_eq!(decode_text(reply), Err(ProtocolError::MissingField(Field::Identity)));
}

#[test]
fn reply_round_trips_through_its_rendering() {
    for sample in [
        flat_sample(),
        nested_sample(None, None),
        nested_sample(Some(0), None),
        nested_sample(None, Some(u64::MAX)),
        nested_sample(Some(42), Some(1738512000)),
    ] {
        let bytes = sample.to_json().to_text().into_bytes();
        assert_eq!(decode(&bytes), Ok(sample));
    }
}

#[test]
fn reply_with_awkward_characters_round_trips() {
    let mut sample = nested_sample(Some(1), Some(2));
    sample.identity = "quote\" slash\\ tab\t nl\n cr\r bs\u{8} ff\u{c} bell\u{7} nul\u{0}".to_string();
    sample.token = "é ü 你好 😀 \u{7f} \u{2028}".to_string();
    let text = sample.to_json().to_text();
    assert_eq!(decode_text(&text), Ok(sample.clone()));
    let theirs: serde_json::Value = serde_json::from_str(&text).unwrap();
    assert_eq!(theirs["identity"].as_str(), Some(sample.identity.as_str()));
    assert_eq!(theirs["token"].as_str(), Some(sample.token.as_str()));
}

#[test]
fn rendering_omits_absent_echo_fields() {
    let text = nested_sample(None, None).to_json().to_text();
    assert!(!text.contains("instance_id"));
    assert!(!text.contains("timestamp"));
    let text = nested_sample(Some(5), None).to_json().to_text();
    assert!(text.contains(r#""instance_id":5"#));
    assert!(!text.contains("timestamp"));
}

#[test]
fn empty_reply_is_malformed() {
    assert_eq!(decode(b""), Err(ProtocolError::Malformed));
}

#[test]
fn truncated_reply_is_malformed() {
    let whole = flat_sample().to_json().to_text();
    for cut in 0..whole.len() {
        assert_eq!(decode(&whole.as_bytes()[..cut]), Err(ProtocolError::Malformed), "cut at {cut}");
    }
}

#[test]
fn reply_with_trailing_garbage_is_malformed() {
    let mut text = flat_sample().to_json().to_text();
    text.push_str(" x");
    assert_eq!(decode_text(&text), Err(ProtocolError::Malformed));
}

#[test]
fn reply_surrounded_by_white_space_decodes() {
    let text = format!(" \t\r\n{}\n", flat_sample().to_json().to_text());
    assert_eq!(decode_text(&text), Ok(flat_sample()));
}

#[test]
fn bytes_that_are_not_utf8_are_not_text() {
    assert_eq!(decode(&[0x7b, 0xff, 0x7d]), Err(ProtocolError::NotText));
    assert_eq!(decode(&[0xc3]), Err(ProtocolError::NotText));
}

#[test]
fn reply_that_is_not_an_object_is_rejected() {
    for text in ["[]", "null", "true", "42", r#""identity""#] {
        assert_eq!(decode_text(text), Err(ProtocolError::NotAnObject), "{text}");
    }
}

#[test]
fn missing_identity_fields_are_reported_in_order() {
    assert_eq!(decode_text("{}"), Err(ProtocolError::MissingField(Field::Identity)));
    assert_eq!(
        decode_text(r#"{"identity":"a"}"#),
        Err(ProtocolError::MissingField(Field::IdmUrl))
    );
    assert_eq!(
        decode_text(r#"{"identity":"a","idm_url":"b"}"#),
        Err(ProtocolError::MissingField(Field::ConfigUrl))
    );
    assert_eq!(
        decode_text(r#"{"identity":"a","idm_url":"b","config_url":"c"}"#),
        Err(ProtocolError::MissingField(Field::Token))
    );
    assert_eq!(
        decode_text(r#"{"identity":"a","idm_url":"b","config_url":"c","token":"d"}"#),
        Err(ProtocolError::MissingField(Field::Process))
    );
}

#[test]
fn empty_identity_fields_are_rejected() {
    assert_eq!(
        decode_text(r#"{"identity":"","idm_url":"b","config_url":"c","token":"d"}"#),
        Err(ProtocolError::EmptyField(Field::Identity))
    );
    assert_eq!(
        decode_text(&with_base(r#""process":"","pid":1,"uid":2,"gid":3"#).replace("tok123", "")),
        Err(ProtocolError::EmptyField(Field::Token))
    );
}

#[test]
fn empty_process_name_is_accepted() {
    let r = decode_text(&with_base(r#""process":"","pid":1,"uid":2,"gid":3"#)).unwrap();
    assert_eq!(r.process, "");
}

#[test]
fn wrong_kinds_are_rejected() {
    assert_eq!(
        decode_text(r#"{"identity":7}"#),
        Err(ProtocolError::WrongType(Field::Identity))
    );
    assert_eq!(
        decode_text(&with_base(r#""process":"p","pid":"1","uid":2,"gid":3"#)),
        Err(ProtocolError::WrongType(Field::Pid))
    );
    assert_eq!(
        decode_text(&with_base(r#""runner":[]"#)),
        Err(ProtocolError::WrongType(Field::Runner))
    );
    assert_eq!(
        decode_text(&with_base(r#""runner":null"#)),
        Err(ProtocolError::WrongType(Field::Runner))
    );
    assert_eq!(
        decode_text(&with_base(
            r#""runner":{"hostname":"h","process":"p","pid":1,"uid":2,"gid":3,"instance_id":"x"}"#
        )),
        Err(ProtocolError::WrongType(Field::InstanceId))
    );
}

#[test]
fn numbers_out_of_range_are_rejected() {
    assert_eq!(
        decode_text(&with_base(r#""process":"p","pid":4294967296,"uid":2,"gid":3"#)),
        Err(ProtocolError::OutOfRange(Field::Pid))
    );
    assert_eq!(
        decode_text(&with_base(r#""process":"p","pid":1,"uid":-2,"gid":3"#)),
        Err(ProtocolError::OutOfRange(Field::Uid))
    );
    assert_eq!(
        decode_text(&with_base(r#""process":"p","pid":1,"uid":2,"gid":3.5"#)),
        Err(ProtocolError::OutOfRange(Field::Gid))
    );
    assert_eq!(
        decode_text(&with_base(
            r#""runner":{"hostname":"h","process":"p","pid":1,"uid":2,"gid":3,"timestamp":18446744073709551616}"#
        )),
        Err(ProtocolError::OutOfRange(Field::Timestamp))
    );
}

#[test]
fn largest_numbers_are_accepted() {
    let r = decode_text(&with_base(
        r#""runner":{"hostname":"h","process":"p","pid":4294967295,"uid":0,"gid":4294967295,"instance_id":18446744073709551615}"#,
    ))
    .unwrap();
    assert_eq!(r.pid, u32::MAX);
    assert_eq!(r.uid, 0);
    assert_eq!(r.runner.unwrap().instance_id, Some(u64::MAX));
}

#[test]
fn missing_pid_is_a_protocol_error() {
    let reply = with_base(r#""runner":{"hostname":"h","process":"worker","uid":1000,"gid":1000}"#);
    assert_eq!(decode_text(&reply), Err(ProtocolError::MissingField(Field::Pid)));
}

#[test]
fn incomplete_runner_is_reported_field_by_field() {
    assert_eq!(
        decode_text(&with_base(r#""runner":{}"#)),
        Err(ProtocolError::MissingField(Field::Hostname))
    );
    assert_eq!(
        decode_text(&with_base(r#""runner":{"hostname":"h"}"#)),
        Err(ProtocolError::MissingField(Field::Process))
    );
    assert_eq!(
        decode_text(&with_base(r#""runner":{"hostname":"h","process":"p","pid":1}"#)),
        Err(ProtocolError::MissingField(Field::Uid))
    );
    assert_eq!(
        decode_text(&with_base(r#""runner":{"hostname":"h","process":"p","pid":1,"uid":1}"#)),
        Err(ProtocolError::MissingField(Field::Gid))
    );
}

#[test]
fn runner_takes_precedence_over_flat_fields() {
    let reply = with_base(
        r#""process":"outer","pid":9,"uid":9,"gid":9,"runner":{"hostname":"h","process":"inner","pid":1,"uid":2,"gid":3}"#,
    );
    let r = decode_text(&reply).unwrap();
    assert_eq!(r.process, "inner");
    assert_eq!((r.pid, r.uid, r.gid), (1, 2, 3));
    assert_eq!(r.runner.unwrap().process, "inner");
}

#[test]
fn first_of_two_members_with_one_key_counts() {
    let reply = r#"{"identity":"first","identity":"second","idm_url":"b","config_url":"c","token":"d","process":"p","pid":1,"uid":2,"gid":3}"#;
    assert_eq!(decode_text(reply).unwrap().identity, "first");
}

#[test]
fn member_order_and_white_space_do_not_matter() {
    let reply = r#"
        { "gid" : 1000 , "uid" : 1000 , "pid" : 42 , "process" : "worker" ,
          "token" : "tok123" , "config_url" : "https:\/\/cfg" ,
          "idm_url" : "https://idm" , "identity" : "svc-a" }
    "#;
    assert_eq!(decode_text(reply), Ok(flat_sample()));
}

#[test]
fn unknown_members_do_not_change_the_response() {
    let known = [
        r#""identity":"svc-a""#,
        r#""idm_url":"https://idm""#,
        r#""config_url":"https://cfg""#,
        r#""token":"tok123""#,
        r#""process":"worker""#,
        r#""pid":42"#,
        r#""uid":1000"#,
        r#""gid":1000"#,
    ];
    let extras = [
        r#""status":"ok""#,
        r#""load":0.75"#,
        r#""tags":["a",{"b":null}]"#,
        r#""Identity":"other""#,
        r#""":-1"#,
    ];
    for extra in extras {
        for at in 0..=known.len() {
            let mut members: Vec<&str> = known.to_vec();
            members.insert(at, extra);
            let text = format!("{{{}}}", members.join(","));
            assert_eq!(decode_text(&text), Ok(flat_sample()), "{text}");
        }
    }
}

#[test]
fn unknown_members_in_the_runner_record_do_not_change_it() {
    let reply = with_base(
        r#""runner":{"identity":"svc-a","hostname":"worker-01","zone":"eu","process":"worker","pid":42,"uid":1000,"gid":1000,"extra":{"pid":7}}"#,
    );
    assert_eq!(decode_text(&reply), Ok(nested_sample(None, None)));
}

#[test]
fn different_requests_encode_differently() {
    assert_eq!(encode(None), encode(Some(IdentityRequest::new())));
    let requests = [
        None,
        Some(IdentityRequest::new().with_instance_id(0)),
        Some(IdentityRequest::new().with_timestamp(0)),
        Some(IdentityRequest::new().with_instance_id(1)),
        Some(IdentityRequest::new().with_timestamp(1)),
        Some(IdentityRequest::new().with_instance_id(1).with_timestamp(1)),
        Some(IdentityRequest::new().with_instance_id(1).with_timestamp(2)),
        Some(IdentityRequest::new().with_instance_id(2).with_timestamp(1)),
    ];
    for (i, a) in requests.iter().enumerate() {
        for (j, b) in requests.iter().enumerate() {
            assert_eq!(encode(*a) == encode(*b), i == j);
        }
    }
}
