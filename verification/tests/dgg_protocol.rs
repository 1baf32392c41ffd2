use gigachat::dgg::{dgg_outgoing, split_command, command_of, DggCommand, DggSocketAction};
use gigachat::model::OutgoingMessage;

#[test]
fn test4() {
    let x = format!("MSG {{\"data\":\"{}\"}}", "message");
    println!("{}", x);
    let out = OutgoingMessage::Chat { channel: "Destiny".to_string(), message: "message".to_string() };
    match dgg_outgoing(out) {
        DggSocketAction::Send { frame } => assert_eq!(frame, format!("{}\r", x)),
        _ => panic!("a chat line is sent as a frame"),
    }
}

#[test]
fn split_command_at_first_space() {
    let r = split_command("MSG {\"nick\":\"Bob\", \"data\":\"hi there\"}");
    assert_eq!(r, Some(("MSG".to_string(), "{\"nick\":\"Bob\", \"data\":\"hi there\"}".to_string())));
    assert_eq!(split_command("PING"), None);
    assert_eq!(split_command(" x"), Some(("".to_string(), "x".to_string())));
}

#[test]
fn commands_are_recognised() {
    assert_eq!(command_of("MSG"), DggCommand::Msg);
    assert_eq!(command_of("BROADCAST"), DggCommand::Broadcast);
    assert_eq!(command_of("NAMES"), DggCommand::Names);
    assert_eq!(command_of("msg"), DggCommand::Unknown);
}
