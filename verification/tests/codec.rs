use indexer_service::model::{IndexerStatus, IndexerType};
use indexer_service::queue::{
    encode_fail_request, encode_start_request, encode_stop_request, parse_fail_request,
    parse_start_request, parse_stop_request, StartIndexerRequest, StopIndexerRequest,
};
use indexer_service::textfmt::{
    i32_to_string, i64_to_string, parse_u32, parse_uuid, u32_to_string, u64_to_string, uuid_text,
};

#[test]
fn uuid_text_matches_uuid_crate() {
    let samples: [u128; 4] = [
        0,
        1,
        0x67e55044_10b1_426f_9247_bb680e5fe0c8,
        u128::MAX,
    ];
    for &v in samples.iter() {
        let expected = uuid::Uuid::from_u128(v).to_string();
        assert_eq!(uuid_text(v), expected);
    }
}

#[test]
fn uuid_text_round_trips() {
    let samples: [u128; 4] = [0, 1, 0x67e55044_10b1_426f_9247_bb680e5fe0c8, u128::MAX];
    for &v in samples.iter() {
        assert_eq!(parse_uuid(&uuid_text(v)), Some(v));
    }
}

#[test]
fn parse_uuid_rejects_junk() {
    assert_eq!(parse_uuid(""), None);
    assert_eq!(parse_uuid("not-a-uuid"), None);
    // wrong hyphen placement
    assert_eq!(parse_uuid("67e5504410b-1426f-9247-bb68-0e5fe0c80000"), None);
    // upper case is not canonical
    assert_eq!(parse_uuid("67E55044-10B1-426F-9247-BB680E5FE0C8"), None);
    // one char short
    assert_eq!(parse_uuid("67e55044-10b1-426f-9247-bb680e5fe0c"), None);
}

#[test]
fn decimal_rendering_exact() {
    assert_eq!(u64_to_string(0), "0");
    assert_eq!(u64_to_string(42), "42");
    assert_eq!(u64_to_string(u64::MAX), "18446744073709551615");
    assert_eq!(u32_to_string(4294967295), "4294967295");
    assert_eq!(i64_to_string(-1), "-1");
    assert_eq!(i64_to_string(i64::MIN), "-9223372036854775808");
    assert_eq!(i64_to_string(1), "1");
    assert_eq!(i32_to_string(-1234), "-1234");
}

#[test]
fn parse_u32_round_trips_and_rejects() {
    assert_eq!(parse_u32("0"), Some(0));
    assert_eq!(parse_u32("4294967295"), Some(4294967295));
    assert_eq!(parse_u32("4294967296"), None);
    assert_eq!(parse_u32("007"), None);
    assert_eq!(parse_u32(""), None);
    assert_eq!(parse_u32("-1"), None);
    assert_eq!(parse_u32("12a"), None);
}

#[test]
fn start_request_wire_format_exact() {
    let req = StartIndexerRequest { id: 0x67e55044_10b1_426f_9247_bb680e5fe0c8, attempt_no: 3 };
    let encoded = encode_start_request(&req);
    assert_eq!(
        encoded,
        "{\"id\":\"67e55044-10b1-426f-9247-bb680e5fe0c8\",\"attempt_no\":3}"
    );
    assert_eq!(parse_start_request(&encoded), Some(req));
}

#[test]
fn start_request_parse_rejects_non_canonical() {
    assert_eq!(parse_start_request(""), None);
    assert_eq!(
        parse_start_request("{\"attempt_no\":3,\"id\":\"67e55044-10b1-426f-9247-bb680e5fe0c8\"}"),
        None
    );
    assert_eq!(
        parse_start_request("{\"id\":\"67e55044-10b1-426f-9247-bb680e5fe0c8\",\"attempt_no\":03}"),
        None
    );
}

#[test]
fn stop_request_wire_format_exact() {
    let req = StopIndexerRequest {
        id: 0x67e55044_10b1_426f_9247_bb680e5fe0c8,
        status: IndexerStatus::Stopped,
    };
    let encoded = encode_stop_request(&req);
    assert_eq!(
        encoded,
        "{\"id\":\"67e55044-10b1-426f-9247-bb680e5fe0c8\",\"status\":\"Stopped\"}"
    );
    assert_eq!(parse_stop_request(&encoded), Some(req));

    let failed = StopIndexerRequest { id: 1, status: IndexerStatus::FailedStopping };
    assert_eq!(parse_stop_request(&encode_stop_request(&failed)), Some(failed));
}

#[test]
fn stop_request_parse_rejects_unknown_status() {
    assert_eq!(
        parse_stop_request(
            "{\"id\":\"67e55044-10b1-426f-9247-bb680e5fe0c8\",\"status\":\"Sleeping\"}"
        ),
        None
    );
}

#[test]
fn fail_request_round_trips() {
    let id: u128 = 0x67e55044_10b1_426f_9247_bb680e5fe0c8;
    let encoded = encode_fail_request(id);
    assert_eq!(encoded, "67e55044-10b1-426f-9247-bb680e5fe0c8");
    assert_eq!(parse_fail_request(&encoded), Some(id));
}

#[test]
fn test_status_names() {
    let cases = [
        (IndexerStatus::Created, "Created"),
        (IndexerStatus::Running, "Running"),
        (IndexerStatus::Stopped, "Stopped"),
        (IndexerStatus::FailedRunning, "FailedRunning"),
        (IndexerStatus::FailedStopping, "FailedStopping"),
    ];
    for (status, name) in cases.iter() {
        assert_eq!(status.name(), *name);
        assert_eq!(IndexerStatus::parse(&name.to_string()), Some(*status));
    }
    assert_eq!(IndexerStatus::parse(&"InvalidStatus".to_string()), None);
}

#[test]
fn test_type_names() {
    let cases = [
        (IndexerType::Webhook, "Webhook"),
        (IndexerType::Postgres, "Postgres"),
        (IndexerType::Console, "Console"),
    ];
    for (ty, name) in cases.iter() {
        assert_eq!(ty.name(), *name);
        assert_eq!(IndexerType::parse(&name.to_string()), Some(*ty));
    }
    assert_eq!(IndexerType::parse(&"InvalidType".to_string()), None);
}
