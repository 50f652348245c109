use snek::codec::{decode, encode_join, encode_move, Direction, Message, ProtocolError};

#[test]
fn decode_pos_frame() {
    let got = decode("pos|2|3|4");
    assert_eq!(got, Ok(Message::Pos { player_id: 2, x: 3, y: 4 }));
}

#[test]
fn decode_garbage_frame() {
    let got = decode("move-garbage");
    assert_eq!(
        got,
        Err(ProtocolError::UnknownFrame(String::from("move-garbage")))
    );
}

#[test]
fn encode_move_right() {
    assert_eq!(encode_move(Direction::Right), "move|right");
}

#[test]
fn encode_move_all_tokens() {
    assert_eq!(encode_move(Direction::Up), "move|up");
    assert_eq!(encode_move(Direction::Down), "move|down");
    assert_eq!(encode_move(Direction::Left), "move|left");
    assert_eq!(Direction::Up.as_str(), "up");
    assert_eq!(Direction::Right.as_str(), "right");
    assert_eq!(Direction::Down.as_str(), "down");
    assert_eq!(Direction::Left.as_str(), "left");
}

#[test]
fn encode_join_line() {
    assert_eq!(encode_join("Snekisnek", "tok"), "join|Snekisnek|tok");
}

#[test]
fn decode_motd_frame() {
    assert_eq!(
        decode("motd|welcome to the arena"),
        Ok(Message::Motd(String::from("welcome to the arena")))
    );
}

#[test]
fn decode_error_frame() {
    assert_eq!(
        decode("error|name taken"),
        Ok(Message::Error(String::from("name taken")))
    );
}

#[test]
fn decode_game_frame() {
    assert_eq!(
        decode("game|10|12|3"),
        Ok(Message::Game { width: 10, height: 12, player_id: 3 })
    );
}

#[test]
fn decode_tick_frame() {
    assert_eq!(decode("tick"), Ok(Message::Tick));
}

#[test]
fn decode_die_no_ids() {
    assert_eq!(decode("die"), Ok(Message::Die(vec![])));
}

#[test]
fn decode_die_ids() {
    assert_eq!(decode("die|3|4"), Ok(Message::Die(vec![3, 4])));
}

#[test]
fn decode_chat_frame() {
    assert_eq!(
        decode("message|1|gl hf"),
        Ok(Message::Chat { player_id: 1, text: String::from("gl hf") })
    );
}

#[test]
fn decode_win_frame() {
    assert_eq!(decode("win|4|2"), Ok(Message::Win { wins: 4, losses: 2 }));
}

#[test]
fn decode_lose_frame() {
    assert_eq!(decode("lose|4|3"), Ok(Message::Lose { wins: 4, losses: 3 }));
}

#[test]
fn decode_bad_width_names_field() {
    assert_eq!(
        decode("game|x|2|3"),
        Err(ProtocolError::FieldParse(String::from("game"), 1))
    );
}

#[test]
fn decode_bad_pos_y_names_field() {
    assert_eq!(
        decode("pos|1|2|y"),
        Err(ProtocolError::FieldParse(String::from("pos"), 3))
    );
}

#[test]
fn decode_bad_die_id_names_field() {
    assert_eq!(
        decode("die|1|z"),
        Err(ProtocolError::FieldParse(String::from("die"), 2))
    );
}

#[test]
fn decode_chat_bad_id() {
    assert_eq!(
        decode("message|nan|hi"),
        Err(ProtocolError::FieldParse(String::from("message"), 1))
    );
}

#[test]
fn decode_win_bad_losses() {
    assert_eq!(
        decode("win|1|nope"),
        Err(ProtocolError::FieldParse(String::from("win"), 2))
    );
}

#[test]
fn decode_lose_bad_wins() {
    assert_eq!(
        decode("lose|?|3"),
        Err(ProtocolError::FieldParse(String::from("lose"), 1))
    );
}

#[test]
fn decode_overflowing_field() {
    assert_eq!(
        decode("pos|99999999999999999999999999|1|2"),
        Err(ProtocolError::FieldParse(String::from("pos"), 1))
    );
}

#[test]
fn decode_largest_field_value() {
    let line = format!("pos|{}|0|0", usize::MAX);
    assert_eq!(
        decode(&line),
        Ok(Message::Pos { player_id: usize::MAX, x: 0, y: 0 })
    );
}

#[test]
fn decode_leading_zeros() {
    assert_eq!(
        decode("pos|007|0|1"),
        Ok(Message::Pos { player_id: 7, x: 0, y: 1 })
    );
}

#[test]
fn decode_sign_rejected() {
    assert_eq!(
        decode("pos|+2|3|4"),
        Err(ProtocolError::FieldParse(String::from("pos"), 1))
    );
}

#[test]
fn decode_empty_field_rejected() {
    assert_eq!(
        decode("pos||3|4"),
        Err(ProtocolError::FieldParse(String::from("pos"), 1))
    );
}

#[test]
fn decode_wrong_arity() {
    assert_eq!(
        decode("game|1|2"),
        Err(ProtocolError::UnknownFrame(String::from("game|1|2")))
    );
    assert_eq!(
        decode("pos|1|2|3|4"),
        Err(ProtocolError::UnknownFrame(String::from("pos|1|2|3|4")))
    );
    assert_eq!(
        decode("tick|now"),
        Err(ProtocolError::UnknownFrame(String::from("tick|now")))
    );
}

#[test]
fn decode_empty_line() {
    assert_eq!(decode(""), Err(ProtocolError::UnknownFrame(String::from(""))));
}

#[test]
fn message_from_strips_terminator() {
    assert_eq!(
        Message::from(String::from("pos|2|3|4\n")),
        Ok(Message::Pos { player_id: 2, x: 3, y: 4 })
    );
    assert_eq!(Message::from(String::from("  tick \r\n")), Ok(Message::Tick));
}

#[test]
fn message_from_keeps_inner_text() {
    assert_eq!(
        Message::from(String::from("motd|hello there\n")),
        Ok(Message::Motd(String::from("hello there")))
    );
}

#[test]
fn decode_zero_fields_parse() {
    assert_eq!(decode("pos|0|0|0"), Ok(Message::Pos { player_id: 0, x: 0, y: 0 }));
}

#[test]
fn motd_with_bar_in_text_is_rejected() {
    // The splitter keeps every separator significant: a second `|` changes
    // the arity and no grammar rule matches.
    assert_eq!(
        decode("motd|a|b"),
        Err(ProtocolError::UnknownFrame(String::from("motd|a|b")))
    );
}

#[test]
fn decode_keeps_non_ascii_text() {
    assert_eq!(
        decode("motd|héllo wörld"),
        Ok(Message::Motd(String::from("héllo wörld")))
    );
}
