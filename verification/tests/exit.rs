use jukebox::exit::ExitCode;
use jukebox::exit::ExitMsg;

const ALL: [ExitCode; 13] = [
    ExitCode::_CleanExit,
    ExitCode::Interrupted,
    ExitCode::_ReservedByClap,
    ExitCode::StderrLogger,
    ExitCode::CannotRegisterSignalHandler,
    ExitCode::_CannotInitializeGpu,
    ExitCode::GenericError,
    ExitCode::SerialSendMessageError,
    ExitCode::SerialSendFlushError,
    ExitCode::SerialExpectRecieveError,
    ExitCode::SerialExpectMatchError,
    ExitCode::SerialReadBadData,
    ExitCode::SerialReadTimeout,
];

#[test]
fn exit_codes_are_numbered_in_their_order() {
    for (i, code) in ALL.iter().enumerate() {
        assert_eq!(code.number(), i as i32);
    }
    assert_eq!(ExitCode::_CleanExit.number(), 0);
    assert_eq!(ExitCode::SerialReadTimeout.number(), 12);
}

#[test]
fn exit_codes_are_named_as_they_are_written() {
    for code in ALL {
        assert_eq!(code.name(), format!("{:?}", code));
    }
}

#[test]
fn exit_message_keeps_code_and_text() {
    let e = ExitMsg::new(ExitCode::SerialReadTimeout, String::from("Serial read timeout."));
    assert_eq!(e.code, ExitCode::SerialReadTimeout);
    assert_eq!(e.msg, "Serial read timeout.");
}

#[test]
fn exit_message_shows_name_and_number_of_its_code() {
    let e = ExitMsg::new(ExitCode::SerialReadTimeout, String::from("Serial read timeout."));
    assert_eq!(e.to_string(), "Serial read timeout. Exit code: SerialReadTimeout (12)");
    let e = ExitMsg::new(ExitCode::_CleanExit, String::new());
    assert_eq!(e.to_string(), " Exit code: _CleanExit (0)");
    for (i, code) in ALL.iter().enumerate() {
        let e = ExitMsg::new(*code, String::from("m"));
        assert_eq!(e.to_string(), format!("m Exit code: {:?} ({})", code, i));
    }
}
