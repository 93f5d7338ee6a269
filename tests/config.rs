use room_hub::config::{ConfigError, RoomConfig};

#[test]
fn full_config_is_read() {
    let text = "# room settings\nroom = room_568491\nteacher = user_1\n\nauthorised_students = user_2, user_3 ,, user_4\nsign_key = k1\n";
    let c = RoomConfig::parse(text).unwrap();
    assert_eq!(c.room, "room_568491");
    assert_eq!(c.teacher, "user_1");
    assert_eq!(c.authorised_students, vec!["user_2", "user_3", "user_4"]);
    assert_eq!(c.sign_key, "k1");
}

#[test]
fn students_default_to_empty_and_crlf_is_accepted() {
    let c = RoomConfig::parse("room=r\r\nteacher=t\r\nsign_key = a=b\r\n").unwrap();
    assert_eq!(c.room, "r");
    assert_eq!(c.teacher, "t");
    assert!(c.authorised_students.is_empty());
    assert_eq!(c.sign_key, "a=b");
}

#[test]
fn later_line_wins() {
    let c = RoomConfig::parse("room=a\nroom=b\nteacher=t\nsign_key=k").unwrap();
    assert_eq!(c.room, "b");
}

#[test]
fn unknown_key_is_refused_with_its_line() {
    match RoomConfig::parse("room=a\n  colour = red\n") {
        Err(ConfigError::UnknownKey { key, line }) => {
            assert_eq!(key, "colour");
            assert_eq!(line, 2);
        }
        other => panic!("unexpected {:?}", other),
    }
}

#[test]
fn line_without_equals_is_refused() {
    match RoomConfig::parse("\n# c\nroom a\r\nteacher=t") {
        Err(ConfigError::BadLine { line, text }) => {
            assert_eq!(line, 3);
            assert_eq!(text, "room a");
        }
        other => panic!("unexpected {:?}", other),
    }
}

#[test]
fn missing_fields_are_refused_in_order() {
    assert!(matches!(RoomConfig::parse(""), Err(ConfigError::MissingRoom)));
    assert!(matches!(RoomConfig::parse("room=r\nsign_key=k"), Err(ConfigError::MissingTeacher)));
    assert!(matches!(RoomConfig::parse("room=r\nteacher=t\n"), Err(ConfigError::MissingSignKey)));
}
