//! How the program says why it ends.
//!
//! Every way out of the program has a code of its own, and a message that
//! goes with it.

use vstd::prelude::*;
use vstd::string::StringExecFns;

verus! {

/// Why the program ends. The codes whose names begin with an underscore are
/// set aside and not given out.
#[derive(Clone, Copy, Debug, PartialEq, Eq, Structural)]
pub enum ExitCode {
    _CleanExit,
    Interrupted,
    _ReservedByClap,
    StderrLogger,
    CannotRegisterSignalHandler,
    _CannotInitializeGpu,
    GenericError,
    SerialSendMessageError,
    SerialSendFlushError,
    SerialExpectRecieveError,
    SerialExpectMatchError,
    SerialReadBadData,
    SerialReadTimeout,
}

impl ExitCode {
    /// The number that the process exits with.
    pub open spec fn spec_number(self) -> i32 {
        match self {
            ExitCode::_CleanExit => 0,
            ExitCode::Interrupted => 1,
            ExitCode::_ReservedByClap => 2,
            ExitCode::StderrLogger => 3,
            ExitCode::CannotRegisterSignalHandler => 4,
            ExitCode::_CannotInitializeGpu => 5,
            ExitCode::GenericError => 6,
            ExitCode::SerialSendMessageError => 7,
            ExitCode::SerialSendFlushError => 8,
            ExitCode::SerialExpectRecieveError => 9,
            ExitCode::SerialExpectMatchError => 10,
            ExitCode::SerialReadBadData => 11,
            ExitCode::SerialReadTimeout => 12,
        }
    }

    /// The name of the code.
    pub open spec fn spec_name(self) -> Seq<char> {
        match self {
            ExitCode::_CleanExit => "_CleanExit"@,
            ExitCode::Interrupted => "Interrupted"@,
            ExitCode::_ReservedByClap => "_ReservedByClap"@,
            ExitCode::StderrLogger => "StderrLogger"@,
            ExitCode::CannotRegisterSignalHandler => "CannotRegisterSignalHandler"@,
            ExitCode::_CannotInitializeGpu => "_CannotInitializeGpu"@,
            ExitCode::GenericError => "GenericError"@,
            ExitCode::SerialSendMessageError => "SerialSendMessageError"@,
            ExitCode::SerialSendFlushError => "SerialSendFlushError"@,
            ExitCode::SerialExpectRecieveError => "SerialExpectRecieveError"@,
            ExitCode::SerialExpectMatchError => "SerialExpectMatchError"@,
            ExitCode::SerialReadBadData => "SerialReadBadData"@,
            ExitCode::SerialReadTimeout => "SerialReadTimeout"@,
        }
    }

    /// The number of the code, written out.
    pub open spec fn spec_number_text(self) -> Seq<char> {
        match self {
            ExitCode::_CleanExit => "0"@,
            ExitCode::Interrupted => "1"@,
            ExitCode::_ReservedByClap => "2"@,
            ExitCode::StderrLogger => "3"@,
            ExitCode::CannotRegisterSignalHandler => "4"@,
            ExitCode::_CannotInitializeGpu => "5"@,
            ExitCode::GenericError => "6"@,
            ExitCode::SerialSendMessageError => "7"@,
            ExitCode::SerialSendFlushError => "8"@,
            ExitCode::SerialExpectRecieveError => "9"@,
            ExitCode::SerialExpectMatchError => "10"@,
            ExitCode::SerialReadBadData => "11"@,
            ExitCode::SerialReadTimeout => "12"@,
        }
    }

    pub fn number(self) -> (n: i32)
        ensures
            n == self.spec_number(),
    {
        match self {
            ExitCode::_CleanExit => 0,
            ExitCode::Interrupted => 1,
            ExitCode::_ReservedByClap => 2,
            ExitCode::StderrLogger => 3,
            ExitCode::CannotRegisterSignalHandler => 4,
            ExitCode::_CannotInitializeGpu => 5,
            ExitCode::GenericError => 6,
            ExitCode::SerialSendMessageError => 7,
            ExitCode::SerialSendFlushError => 8,
            ExitCode::SerialExpectRecieveError => 9,
            ExitCode::SerialExpectMatchError => 10,
            ExitCode::SerialReadBadData => 11,
            ExitCode::SerialReadTimeout => 12,
        }
    }

    pub fn name(self) -> (s: &'static str)
        ensures
            s@ == self.spec_name(),
    {
        match self {
            ExitCode::_CleanExit => "_CleanExit",
            ExitCode::Interrupted => "Interrupted",
            ExitCode::_ReservedByClap => "_ReservedByClap",
            ExitCode::StderrLogger => "StderrLogger",
            ExitCode::CannotRegisterSignalHandler => "CannotRegisterSignalHandler",
            ExitCode::_CannotInitializeGpu => "_CannotInitializeGpu",
            ExitCode::GenericError => "GenericError",
            ExitCode::SerialSendMessageError => "SerialSendMessageError",
            ExitCode::SerialSendFlushError => "SerialSendFlushError",
            ExitCode::SerialExpectRecieveError => "SerialExpectRecieveError",
            ExitCode::SerialExpectMatchError => "SerialExpectMatchError",
            ExitCode::SerialReadBadData => "SerialReadBadData",
            ExitCode::SerialReadTimeout => "SerialReadTimeout",
        }
    }

    fn number_text(self) -> (s: &'static str)
        ensures
            s@ == self.spec_number_text(),
    {
        match self {
            ExitCode::_CleanExit => "0",
            ExitCode::Interrupted => "1",
            ExitCode::_ReservedByClap => "2",
            ExitCode::StderrLogger => "3",
            ExitCode::CannotRegisterSignalHandler => "4",
            ExitCode::_CannotInitializeGpu => "5",
            ExitCode::GenericError => "6",
            ExitCode::SerialSendMessageError => "7",
            ExitCode::SerialSendFlushError => "8",
            ExitCode::SerialExpectRecieveError => "9",
            ExitCode::SerialExpectMatchError => "10",
            ExitCode::SerialReadBadData => "11",
            ExitCode::SerialReadTimeout => "12",
        }
    }
}

/// A code and the message that goes with it.
#[derive(Clone, Debug)]
pub struct ExitMsg {
    pub code: ExitCode,
    pub msg: String,
}

impl ExitMsg {
    /// The text that is shown for the message: the message, the name of its
    /// code and, in brackets, the number of the code.
    pub open spec fn spec_text(&self) -> Seq<char> {
        self.msg@ + " Exit code: "@ + self.code.spec_name() + " ("@ + self.code.spec_number_text()
            + ")"@
    }

    pub fn new(code: ExitCode, msg: String) -> (e: Self)
        ensures
            e.code == code,
            e.msg == msg,
    {
        ExitMsg { code, msg }
    }

    pub fn to_string(&self) -> (text: String)
        ensures
            text@ == self.spec_text(),
    {
        let mut text = self.msg.clone();
        text.append(" Exit code: ");
        text.append(self.code.name());
        text.append(" (");
        text.append(self.code.number_text());
        text.append(")");
        text
    }
}

} // verus!
