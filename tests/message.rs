use room_hub::message::{heartbeat_message, IncomingMessage, Sender, Target, Validate, ValidatedJson};

fn message(room: &str, role: &str, command: &str, target: Option<Target>) -> IncomingMessage {
    IncomingMessage {
        room_id: room.to_string(),
        sender: Sender { id: "u1".to_string(), sender_type: role.to_string() },
        target,
        msg_command: command.to_string(),
        payload: None,
    }
}

fn target(scope: &str, types: &[&str], ids: &[&str]) -> Option<Target> {
    Some(Target {
        scope: scope.to_string(),
        types: types.iter().map(|s| s.to_string()).collect(),
        ids: ids.iter().map(|s| s.to_string()).collect(),
    })
}

#[test]
fn valid_message_passes() {
    for role in ["учитель", "ученик", "наблюдатель", "ADMIN", "heartbeat"] {
        assert_eq!(message("r", role, "X", None).validate(), Ok(()));
    }
    assert_eq!(message("r", "ученик", "X", target("all", &[], &[])).validate(), Ok(()));
    assert_eq!(message("r", "ученик", "X", target("type", &["ученик"], &[])).validate(), Ok(()));
    assert_eq!(message("r", "ученик", "X", target("ids", &[], &["u2"])).validate(), Ok(()));
}

#[test]
fn blank_room_is_refused() {
    let e = message(" \t\u{3000}", "ученик", "X", None).validate();
    assert_eq!(e, Err("Поле room_id не должно быть пустым".to_string()));
    let e = message("", "nobody", "", None).validate();
    assert_eq!(e, Err("Поле room_id не должно быть пустым".to_string()));
}

#[test]
fn unknown_role_is_refused() {
    let e = message("r", "guest", "X", None).validate();
    assert_eq!(
        e,
        Err("Неверный sender.type: guest. Должно быть 'учитель', 'ученик' или 'наблюдатель'".to_string())
    );
}

#[test]
fn target_rules() {
    let e = message("r", "ADMIN", "X", target("type", &[], &[])).validate();
    assert_eq!(e, Err("Когда target.scope = 'type', поле target.types не должно быть пустым".to_string()));
    let e = message("r", "ADMIN", "X", target("ids", &["a"], &[])).validate();
    assert_eq!(e, Err("Когда target.scope = 'ids', поле target.ids не должно быть пустым".to_string()));
    let e = message("r", "ADMIN", "X", target("room", &[], &[])).validate();
    assert_eq!(e, Err("Неверное target.scope: 'room'. Должно быть 'all', 'type' или 'ids'".to_string()));
}

#[test]
fn blank_command_is_refused() {
    let e = message("r", "ученик", "  \n", None).validate();
    assert_eq!(e, Err("Поле msg_command не должно быть пустым".to_string()));
}

#[test]
fn trimmed_fields_with_text_pass() {
    assert_eq!(message("  r ", "ученик", " X ", None).validate(), Ok(()));
}

#[test]
fn validated_wrapper_checks() {
    let ok = ValidatedJson::check(message("r", "ученик", "X", None));
    assert!(ok.is_ok());
    assert_eq!(ok.unwrap().0.msg_command, "X");
    let err = ValidatedJson::check(message("r", "ученик", "", None));
    assert_eq!(err.err(), Some("Поле msg_command не должно быть пустым".to_string()));
}

#[test]
fn heartbeat_uses_reserved_values() {
    let m = heartbeat_message("room_1".to_string());
    assert_eq!(m.room_id, "room_1");
    assert_eq!(m.sender.id, "system/heartbeat");
    assert_eq!(m.sender.sender_type, "heartbeat");
    assert_eq!(m.msg_command, "PING");
    assert!(m.target.is_none());
    assert!(m.payload.is_none());
    assert_eq!(m.validate(), Ok(()));
}
