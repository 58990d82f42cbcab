use soroban_pulse::sms::{
    alert_messages, format_sms_message, interpret_twilio_response, is_critical_event,
    passes_contract_filter, twilio_failure, twilio_messages_url, twilio_status_failure,
    AlertEvent, EventType, TwilioResponse,
};

fn event(id: u128, contract_id: &str, event_type: EventType, ledger: i64) -> AlertEvent {
    AlertEvent { id, contract_id: contract_id.to_string(), event_type, ledger }
}

#[test]
fn test_format_sms_message() {
    let event = event(
        uuid::Uuid::new_v4().as_u128(),
        "CABCDEFGHIJKLMNOPQRSTUVWXYZ1234567890",
        EventType::Contract,
        12345,
    );

    let message = format_sms_message(&event);
    assert!(message.len() <= 160);
    assert!(message.contains("CABCDEFG")); // Truncated contract ID
    assert!(message.contains("12345")); // Ledger number
    assert!(message.contains("https://soroban-pulse.com/events/"));
}

#[test]
fn test_is_critical_event() {
    let contract_event = event(uuid::Uuid::new_v4().as_u128(), "test", EventType::Contract, 1);
    let system_event = event(uuid::Uuid::new_v4().as_u128(), "test", EventType::System, 1);

    assert!(is_critical_event(&contract_event));
    assert!(!is_critical_event(&system_event));
}

#[test]
fn diagnostic_events_are_not_critical() {
    let e = event(0, "test", EventType::Diagnostic, 1);
    assert!(!is_critical_event(&e));
}

#[test]
fn exact_message_text() {
    let e = event(
        0x67e5504410b1426f9247bb680e5fe0c8,
        "CABCDEFGHIJKLMNOPQRSTUVWXYZ1234567890",
        EventType::Contract,
        12345,
    );
    assert_eq!(
        format_sms_message(&e),
        "Soroban Alert: contract event on contract CABCDEFG at ledger 12345 View: https://soroban-pulse.com/events/67e55044-10b1-426f-9247-bb680e5fe0c8"
    );
}

#[test]
fn longest_message_fits_one_segment() {
    let e = event(u128::MAX, "\u{e9}\u{e9}\u{e9}\u{e9}XYZ", EventType::Diagnostic, i64::MIN);
    let m = format_sms_message(&e);
    assert!(m.len() <= 159, "{} bytes", m.len());
    assert!(m.contains("contract \u{e9}\u{e9}\u{e9}\u{e9} at ledger -9223372036854775808"));
    assert!(m.ends_with("ffffffff-ffff-ffff-ffff-ffffffffffff"));
}

#[test]
fn filter_lets_listed_contracts_through() {
    let empty: Vec<String> = vec![];
    assert!(passes_contract_filter(&empty, "anything"));
    let filter = vec!["CA".to_string(), "CB".to_string()];
    assert!(passes_contract_filter(&filter, "CB"));
    assert!(!passes_contract_filter(&filter, "CC"));
}

#[test]
fn alerts_go_to_every_number_for_critical_filtered_events() {
    let numbers = vec!["+1".to_string(), "+2".to_string()];
    let filter = vec!["CABCDEFGH".to_string()];
    let e = event(1, "CABCDEFGH", EventType::Contract, 7);
    let sends = alert_messages(&filter, &numbers, &e);
    assert_eq!(sends.len(), 2);
    assert_eq!(sends[0].0, "+1");
    assert_eq!(sends[1].0, "+2");
    assert_eq!(sends[0].1, format_sms_message(&e));

    let other = event(1, "CZZZZZZZZ", EventType::Contract, 7);
    assert!(alert_messages(&filter, &numbers, &other).is_empty());
    let system = event(1, "CABCDEFGH", EventType::System, 7);
    assert!(alert_messages(&filter, &numbers, &system).is_empty());
    // A short contract id is never cut when the event is not sent.
    let short = event(1, "C1", EventType::System, 7);
    assert!(alert_messages(&vec![], &numbers, &short).is_empty());
}

#[test]
fn twilio_texts() {
    assert_eq!(
        twilio_messages_url("AC123"),
        "https://api.twilio.com/2010-04-01/Accounts/AC123/Messages.json"
    );
    let ok = TwilioResponse { sid: "SM1".to_string(), status: "queued".to_string(), error_message: None };
    assert_eq!(interpret_twilio_response(ok), Ok("SM1".to_string()));
    let err = TwilioResponse {
        sid: "SM2".to_string(),
        status: "failed".to_string(),
        error_message: Some("bad number".to_string()),
    };
    assert_eq!(interpret_twilio_response(err), Err("Twilio API error: bad number".to_string()));
    assert_eq!(
        twilio_status_failure("400 Bad Request", "{}"),
        "Twilio API returned 400 Bad Request: {}"
    );
    assert_eq!(twilio_failure("HTTP request failed", "timeout"), "HTTP request failed: timeout");
}
