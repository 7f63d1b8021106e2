//! The two settings of the server, the port and the size of the filler
//! text, as the command line gives them. Two arguments are expected, the port
//! and the size in kilobytes. With any other number of arguments the command
//! line is not read at all: the defaults apply, with a warning on usage. An
//! argument that cannot be read leaves its own setting at the default, with a
//! warning of its own, and has no effect on the other.

use crate::decimal::{parse_decimal, parse_spec};
use vstd::prelude::*;
use vstd::string::*;
use vstd::utf8::encode_utf8;

verus! {

/// The port that the server listens on unless told otherwise.
pub const DEFAULT_HTTP_PORT: u16 = 80;

/// The size of the filler text, in kilobytes, unless told otherwise.
pub const DEFAULT_PADDING_KB: usize = 20;

/// Number of bytes in a kilobyte.
pub const BYTES_PER_KB: usize = 1024;

/// The largest port number.
pub const MAX_PORT: usize = 65535;

/// Number of arguments that the command line is expected to hold.
pub const EXPECTED_ARGUMENTS: usize = 2;

/// The settings of the server.
#[derive(Clone, Copy, Debug, PartialEq, Eq, Structural)]
pub struct Settings {
    /// The port to listen on.
    pub port: u16,
    /// The number of symbols of filler text, in units of 1024.
    pub padding_kb: usize,
}

/// What can be wrong with the command line. None of it is fatal.
#[derive(Clone, Copy, Debug, PartialEq, Eq, Structural)]
pub enum Warning {
    /// The first argument is not a port number.
    InvalidPort,
    /// The second argument is not a size.
    InvalidSize,
    /// Fewer than two arguments.
    NotEnoughArguments,
    /// More than two arguments.
    TooManyArguments,
}

/// The settings that a command line resolves to, with the warnings that it
/// gave rise to, in the order in which they are to be reported.
#[derive(Debug)]
pub struct Resolution {
    pub settings: Settings,
    pub warnings: Vec<Warning>,
}

/// A resolution as a mathematical value.
pub struct ResolutionView {
    pub settings: Settings,
    pub warnings: Seq<Warning>,
}

impl View for Resolution {
    type V = ResolutionView;

    open spec fn view(&self) -> ResolutionView {
        ResolutionView { settings: self.settings, warnings: self.warnings@ }
    }
}

/// The default settings.
pub open spec fn default_settings() -> Settings {
    Settings { port: 80, padding_kb: 20 }
}

/// The port that an argument gives, if it is a port number.
pub open spec fn port_spec(text: Seq<u8>) -> Option<u16> {
    match parse_spec(text, 65535) {
        Some(v) => Some(v as u16),
        None => None,
    }
}

/// The size that an argument gives, if it is a number that the machine can
/// hold.
pub open spec fn padding_kb_spec(text: Seq<u8>) -> Option<usize> {
    match parse_spec(text, usize::MAX as nat) {
        Some(v) => Some(v as usize),
        None => None,
    }
}

/// What a command line resolves to, given the bytes of each of its
/// arguments.
pub open spec fn resolve_spec(arguments: Seq<Seq<u8>>) -> ResolutionView {
    if arguments.len() == 2 {
        let port = port_spec(arguments[0]);
        let padding_kb = padding_kb_spec(arguments[1]);
        ResolutionView {
            settings: Settings {
                port: if port is Some {
                    port->0
                } else {
                    80
                },
                padding_kb: if padding_kb is Some {
                    padding_kb->0
                } else {
                    20
                },
            },
            warnings: (if port is Some {
                Seq::empty()
            } else {
                seq![Warning::InvalidPort]
            }) + (if padding_kb is Some {
                Seq::empty()
            } else {
                seq![Warning::InvalidSize]
            }),
        }
    } else if arguments.len() < 2 {
        ResolutionView {
            settings: default_settings(),
            warnings: seq![Warning::NotEnoughArguments],
        }
    } else {
        ResolutionView { settings: default_settings(), warnings: seq![Warning::TooManyArguments] }
    }
}

/// The bytes of each argument of a command line.
pub open spec fn argument_bytes(arguments: Seq<String>) -> Seq<Seq<u8>> {
    Seq::new(arguments.len(), |i: int| encode_utf8(arguments[i]@))
}

/// The text of each warning.
pub open spec fn message_spec(warning: Warning) -> Seq<char> {
    match warning {
        Warning::InvalidPort => "Error: Invalid port. Using default: 80"@,
        Warning::InvalidSize => "Error: Invalid random text size. Using default: 20KB"@,
        Warning::NotEnoughArguments =>
            "Error: Not enough arguments. Usage: random-page-server <port> <random_text_size_in_kb>"@,
        Warning::TooManyArguments =>
            "Error: Too many arguments. Usage: random-page-server <port> <random_text_size_in_kb>"@,
    }
}

impl Settings {
    /// The default settings: port 80 and 20 kilobytes of filler text.
    pub fn defaults() -> (settings: Settings)
        ensures
            settings == default_settings(),
    {
        Settings { port: DEFAULT_HTTP_PORT, padding_kb: DEFAULT_PADDING_KB }
    }

    /// The number of symbols of filler text that these settings ask for, or
    /// `None` where the machine cannot hold that number.
    pub fn padding_size(&self) -> (size: Option<usize>)
        ensures
            self.padding_kb * 1024 <= usize::MAX ==> size == Some(
                (self.padding_kb * 1024) as usize,
            ),
            self.padding_kb * 1024 > usize::MAX ==> size is None,
    {
        if self.padding_kb > usize::MAX / BYTES_PER_KB {
            None
        } else {
            Some(self.padding_kb * BYTES_PER_KB)
        }
    }
}

impl Warning {
    /// The text of the warning, as it is reported on standard error.
    pub fn message(&self) -> (text: String)
        ensures
            text@ == message_spec(*self),
    {
        match self {
            Warning::InvalidPort => String::from_str("Error: Invalid port. Using default: 80"),
            Warning::InvalidSize => String::from_str(
                "Error: Invalid random text size. Using default: 20KB",
            ),
            Warning::NotEnoughArguments => String::from_str(
                "Error: Not enough arguments. Usage: random-page-server <port> <random_text_size_in_kb>",
            ),
            Warning::TooManyArguments => String::from_str(
                "Error: Too many arguments. Usage: random-page-server <port> <random_text_size_in_kb>",
            ),
        }
    }
}

/// Reads an argument as a port number: an optional plus sign and decimal
/// digits, with a value of at most 65535.
pub fn parse_port(text: &[u8]) -> (port: Option<u16>)
    ensures
        port == port_spec(text@),
{
    match parse_decimal(text, MAX_PORT) {
        Some(v) => Some(v as u16),
        None => None,
    }
}

/// Reads an argument as a size in kilobytes: an optional plus sign and
/// decimal digits, with a value that the machine can hold.
pub fn parse_padding_kb(text: &[u8]) -> (padding_kb: Option<usize>)
    ensures
        padding_kb == padding_kb_spec(text@),
{
    parse_decimal(text, usize::MAX)
}

/// Resolves the arguments of a command line, the name of the program not
/// among them, to the settings of the server.
pub fn resolve(arguments: &[String]) -> (resolution: Resolution)
    ensures
        resolution@ == resolve_spec(argument_bytes(arguments@)),
{
    let mut settings = Settings::defaults();
    let mut warnings: Vec<Warning> = Vec::new();
    if arguments.len() == EXPECTED_ARGUMENTS {
        match parse_port(arguments[0].as_str().as_bytes()) {
            Some(port) => {
                settings.port = port;
            },
            None => {
                warnings.push(Warning::InvalidPort);
            },
        }
        match parse_padding_kb(arguments[1].as_str().as_bytes()) {
            Some(padding_kb) => {
                settings.padding_kb = padding_kb;
            },
            None => {
                warnings.push(Warning::InvalidSize);
            },
        }
    } else if arguments.len() < EXPECTED_ARGUMENTS {
        warnings.push(Warning::NotEnoughArguments);
    } else {
        warnings.push(Warning::TooManyArguments);
    }
    let resolution = Resolution { settings, warnings };
    assert(resolution@.warnings =~= resolve_spec(argument_bytes(arguments@)).warnings);
    resolution
}

/// A command line that cannot be read resolves to the default settings,
/// every time: one with another number of arguments than two, and one whose
/// two arguments are both unreadable.
pub proof fn lemma_unreadable_arguments_give_defaults(arguments: Seq<Seq<u8>>)
    requires
        arguments.len() == 2 ==> port_spec(arguments[0]) is None && padding_kb_spec(
            arguments[1],
        ) is None,
    ensures
        resolve_spec(arguments).settings == default_settings(),
        arguments.len() == 2 ==> resolve_spec(arguments).warnings == seq![
            Warning::InvalidPort,
            Warning::InvalidSize,
        ],
        arguments.len() < 2 ==> resolve_spec(arguments).warnings == seq![
            Warning::NotEnoughArguments,
        ],
        arguments.len() > 2 ==> resolve_spec(arguments).warnings == seq![
            Warning::TooManyArguments,
        ],
{
    if arguments.len() == 2 {
        assert(resolve_spec(arguments).warnings =~= seq![
            Warning::InvalidPort,
            Warning::InvalidSize,
        ]);
    }
}

/// The two arguments are read independently of each other: the port depends
/// on the first argument alone, the size on the second alone.
pub proof fn lemma_arguments_are_independent(
    port: Seq<u8>,
    size: Seq<u8>,
    other_port: Seq<u8>,
    other_size: Seq<u8>,
)
    ensures
        resolve_spec(seq![port, size]).settings.port == resolve_spec(
            seq![port, other_size],
        ).settings.port,
        resolve_spec(seq![port, size]).settings.padding_kb == resolve_spec(
            seq![other_port, size],
        ).settings.padding_kb,
{
}

/// No two warnings have the same text.
pub proof fn lemma_messages_are_distinct(a: Warning, b: Warning)
    requires
        a != b,
    ensures
        message_spec(a) != message_spec(b),
{
    reveal_strlit("Error: Invalid port. Using default: 80");
    reveal_strlit("Error: Invalid random text size. Using default: 20KB");
    reveal_strlit(
        "Error: Not enough arguments. Usage: random-page-server <port> <random_text_size_in_kb>",
    );
    reveal_strlit(
        "Error: Too many arguments. Usage: random-page-server <port> <random_text_size_in_kb>",
    );
    assert(message_spec(Warning::InvalidPort).len() == 38);
    assert(message_spec(Warning::InvalidSize).len() == 52);
    assert(message_spec(Warning::NotEnoughArguments)[7] == 'N');
    assert(message_spec(Warning::TooManyArguments)[7] == 'T');
    assert(message_spec(Warning::NotEnoughArguments).len() > 52);
    assert(message_spec(Warning::TooManyArguments).len() > 52);
}

} // verus!
