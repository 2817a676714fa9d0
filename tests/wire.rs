use caffeinate::wire::{decode_record, encode, Action, Command, Control, Filter, Message, Protocol};

fn record_text(cmd: Command) -> String {
    String::from_utf8(encode(Protocol::Structured, cmd)).unwrap()
}

#[test]
fn legacy_bytes_are_fixed() {
    assert_eq!(encode(Protocol::Legacy, Command::Disable), vec![0u8]);
    assert_eq!(encode(Protocol::Legacy, Command::Enable), vec![1u8]);
    assert_eq!(encode(Protocol::Legacy, Command::TriggerNow), vec![2u8]);
}

#[test]
fn legacy_byte_reads_back() {
    for cmd in [Command::Disable, Command::Enable, Command::TriggerNow] {
        assert_eq!(Command::from_legacy_byte(cmd.legacy_byte()), Some(cmd));
    }
    assert_eq!(Command::from_legacy_byte(3), None);
    assert_eq!(Command::from_legacy_byte(255), None);
}

#[test]
fn structured_disable_record() {
    assert_eq!(
        record_text(Command::Disable),
        "{\"type\":\"control\",\"timer\":null,\"action\":\"disable\"}\n"
    );
}

#[test]
fn structured_enable_and_trigger_records() {
    assert_eq!(
        record_text(Command::Enable),
        "{\"type\":\"control\",\"timer\":null,\"action\":\"enable\"}\n"
    );
    assert_eq!(
        record_text(Command::TriggerNow),
        "{\"type\":\"control\",\"timer\":null,\"action\":\"trigger\"}\n"
    );
}

#[test]
fn structured_records_are_single_json_lines() {
    for (cmd, name) in [
        (Command::Disable, "disable"),
        (Command::Enable, "enable"),
        (Command::TriggerNow, "trigger"),
    ] {
        let text = record_text(cmd);
        assert!(text.ends_with('\n'));
        assert_eq!(text.matches('\n').count(), 1);
        let value: serde_json::Value = serde_json::from_str(text.trim_end()).unwrap();
        assert_eq!(value["type"], serde_json::Value::String("control".to_string()));
        assert_eq!(value["action"], serde_json::Value::String(name.to_string()));
        assert!(value["timer"].is_null());
    }
}

#[test]
fn structured_round_trip() {
    for cmd in [Command::Disable, Command::Enable, Command::TriggerNow] {
        let bytes = encode(Protocol::Structured, cmd);
        let msg = decode_record(&bytes).unwrap();
        assert_eq!(msg, Message::for_command(cmd));
        assert_eq!(msg.command(), cmd);
        let Message::Control(c) = msg;
        assert_eq!(c.timer, Filter::All);
        assert_eq!(c.action, cmd.action());
    }
}

#[test]
fn decode_rejects_other_records() {
    assert_eq!(decode_record(b""), None);
    assert_eq!(decode_record(b"{\"type\":\"control\",\"timer\":null,\"action\":\"disable\"}"), None);
    assert_eq!(decode_record(b"{\"type\":\"control\",\"timer\":null,\"action\":\"pause\"}\n"), None);
    assert_eq!(decode_record(&[0u8]), None);
}

#[test]
fn filter_defaults_to_all() {
    assert_eq!(Filter::default(), Filter::All);
    let m = Message::for_command(Command::Enable);
    assert_eq!(m, Message::Control(Control { timer: Filter::All, action: Action::Enable }));
}
