//! Failures that the panel handle reports.

use vstd::prelude::*;
use vstd::string::*;

verus! {

/// The kinds of I/O failure that the standard library tells apart.
/// A kind that has no name here is `Other`.
#[derive(Clone, Copy, Debug, PartialEq, Eq)]
pub enum IoKind {
    NotFound,
    PermissionDenied,
    ConnectionRefused,
    ConnectionReset,
    HostUnreachable,
    NetworkUnreachable,
    ConnectionAborted,
    NotConnected,
    AddrInUse,
    AddrNotAvailable,
    NetworkDown,
    BrokenPipe,
    AlreadyExists,
    WouldBlock,
    NotADirectory,
    IsADirectory,
    DirectoryNotEmpty,
    ReadOnlyFilesystem,
    StaleNetworkFileHandle,
    InvalidInput,
    InvalidData,
    /// The read timeout of the link elapsed before the reply arrived.
    TimedOut,
    WriteZero,
    StorageFull,
    NotSeekable,
    QuotaExceeded,
    FileTooLarge,
    ResourceBusy,
    ExecutableFileBusy,
    Deadlock,
    CrossesDevices,
    TooManyLinks,
    InvalidFilename,
    ArgumentListTooLong,
    Interrupted,
    Unsupported,
    UnexpectedEof,
    OutOfMemory,
    Other,
}

/// Why an operation on the panel did not complete.
#[derive(Clone, Debug, PartialEq, Eq)]
pub enum Error {
    /// The link failed while bytes were moving, a timeout included:
    /// the kind of the failure and its description.
    Io(IoKind, String),
    /// The link reported a fault that it could not classify.
    SerialUnknown(String),
    /// The addressed device is absent or was removed.
    SerialNoDevice(String),
    /// The link refused a parameter it was opened or configured with.
    SerialInvalidInput(String),
    /// A fill level above 100 was asked for.
    PercentOutOfRange(u8),
}

/// The kinds of failure that a serial link tells apart.
#[derive(Clone, Copy, Debug, PartialEq, Eq)]
pub enum SerialFault {
    /// The device is not available.
    NoDevice,
    /// A parameter was incorrect.
    InvalidInput,
    /// The link cannot say what went wrong.
    Unknown,
    /// Reading or writing failed, in the way that the kind says.
    Io(IoKind),
}

/// A failure as a serial link reports it: its kind and a description
/// for the user.
#[derive(Clone, Debug, PartialEq, Eq)]
pub struct SerialError {
    pub kind: SerialFault,
    pub description: String,
}

/// The error that a failure of the given kind becomes. The
/// description is kept as it is, and so is the kind of an I/O failure.
pub open spec fn classified(kind: SerialFault, description: String) -> Error {
    match kind {
        SerialFault::Io(kind) => Error::Io(kind, description),
        SerialFault::InvalidInput => Error::SerialInvalidInput(description),
        SerialFault::NoDevice => Error::SerialNoDevice(description),
        SerialFault::Unknown => Error::SerialUnknown(description),
    }
}

impl From<SerialError> for Error {
    fn from(err: SerialError) -> (error: Error) {
        match err.kind {
            SerialFault::Io(kind) => Error::Io(kind, err.description),
            SerialFault::InvalidInput => Error::SerialInvalidInput(err.description),
            SerialFault::NoDevice => Error::SerialNoDevice(err.description),
            SerialFault::Unknown => Error::SerialUnknown(err.description),
        }
    }
}

impl vstd::std_specs::convert::FromSpecImpl<SerialError> for Error {
    open spec fn obeys_from_spec() -> bool {
        true
    }

    open spec fn from_spec(err: SerialError) -> Error {
        classified(err.kind, err.description)
    }
}

/// The character that stands for a digit below ten.
pub open spec fn digit_char(digit: nat) -> char {
    if digit == 0 {
        '0'
    } else if digit == 1 {
        '1'
    } else if digit == 2 {
        '2'
    } else if digit == 3 {
        '3'
    } else if digit == 4 {
        '4'
    } else if digit == 5 {
        '5'
    } else if digit == 6 {
        '6'
    } else if digit == 7 {
        '7'
    } else if digit == 8 {
        '8'
    } else {
        '9'
    }
}

/// A number in decimal, without leading zeros.
pub open spec fn decimal(n: nat) -> Seq<char>
    decreases n,
{
    if n < 10 {
        seq![digit_char(n)]
    } else {
        decimal(n / 10).push(digit_char(n % 10))
    }
}

/// The text of one digit.
fn digit_text(digit: u8) -> (text: &'static str)
    requires
        digit < 10,
    ensures
        text@ == seq![digit_char(digit as nat)],
{
    proof {
        reveal_strlit("0");
        reveal_strlit("1");
        reveal_strlit("2");
        reveal_strlit("3");
        reveal_strlit("4");
        reveal_strlit("5");
        reveal_strlit("6");
        reveal_strlit("7");
        reveal_strlit("8");
        reveal_strlit("9");
    }
    let text = match digit {
        0 => "0",
        1 => "1",
        2 => "2",
        3 => "3",
        4 => "4",
        5 => "5",
        6 => "6",
        7 => "7",
        8 => "8",
        _ => "9",
    };
    assert(text@ =~= seq![digit_char(digit as nat)]);
    text
}

/// Appends `n` in decimal to `out`.
fn append_decimal(out: &mut String, n: u8)
    ensures
        final(out)@ == old(out)@ + decimal(n as nat),
{
    if n >= 100 {
        out.append(digit_text(n / 100));
        out.append(digit_text((n / 10) % 10));
        out.append(digit_text(n % 10));
        assert(decimal(n as nat) =~= seq![
            digit_char((n / 100) as nat),
            digit_char(((n / 10) % 10) as nat),
            digit_char((n % 10) as nat),
        ]) by {
            reveal_with_fuel(decimal, 3);
        }
        assert(out@ =~= old(out)@ + decimal(n as nat));
    } else if n >= 10 {
        out.append(digit_text(n / 10));
        out.append(digit_text(n % 10));
        assert(decimal(n as nat) =~= seq![digit_char((n / 10) as nat), digit_char((n % 10) as nat)])
            by {
            reveal_with_fuel(decimal, 2);
        }
        assert(out@ =~= old(out)@ + decimal(n as nat));
    } else {
        out.append(digit_text(n));
        assert(out@ =~= old(out)@ + decimal(n as nat));
    }
}

impl Error {
    /// The message of the error, as shown to the user.
    pub open spec fn text(&self) -> Seq<char> {
        match self {
            Error::Io(_, msg) => "Serial device IO error: "@ + msg@,
            Error::SerialUnknown(msg) => "Unknown serial error: "@ + msg@,
            Error::SerialNoDevice(msg) => "Serial device not available: "@ + msg@,
            Error::SerialInvalidInput(msg) => "Invalid serial device parameter: "@ + msg@,
            Error::PercentOutOfRange(pct) => "Percent out of range (0 to 100): "@ + decimal(
                *pct as nat,
            ),
        }
    }

    /// Renders the error for the user.
    pub fn message(&self) -> (text: String)
        ensures
            text@ == self.text(),
    {
        match self {
            Error::Io(_, msg) => String::from_str("Serial device IO error: ").concat(msg.as_str()),
            Error::SerialUnknown(msg) => String::from_str("Unknown serial error: ").concat(
                msg.as_str(),
            ),
            Error::SerialNoDevice(msg) => String::from_str("Serial device not available: ").concat(
                msg.as_str(),
            ),
            Error::SerialInvalidInput(msg) => String::from_str(
                "Invalid serial device parameter: ",
            ).concat(msg.as_str()),
            Error::PercentOutOfRange(pct) => {
                let mut text = String::from_str("Percent out of range (0 to 100): ");
                append_decimal(&mut text, *pct);
                text
            },
        }
    }
}

} // verus!
