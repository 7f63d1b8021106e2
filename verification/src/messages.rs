//! What the process says on its console.

use crate::lifecycle::Action;
use vstd::prelude::*;
use vstd::string::*;

verus! {

/// What the banner begins with; the address that the server listens on
/// follows.
pub const BANNER_OPENING: &'static str = "Listening on http://";

/// The instruction that follows the banner.
pub const EXIT_PROMPT: &'static str = "Press ENTER to exit";

/// The acknowledgment of a shutdown.
pub const SHUTDOWN_NOTICE: &'static str = "Shutting down...";

/// What the report of an error of the serving loop begins with; the error
/// follows.
pub const SERVER_ERROR_OPENING: &'static str = "Server error: ";

/// The stream that a line goes to.
#[derive(Clone, Copy, Debug, PartialEq, Eq, Structural)]
pub enum Stream {
    /// Standard output.
    Output,
    /// Standard error.
    Error,
}

/// A line for the console, as a mathematical value.
pub struct LineView {
    pub stream: Stream,
    pub text: Seq<char>,
}

/// A line for the console.
#[derive(Debug)]
pub struct Line {
    pub stream: Stream,
    pub text: String,
}

impl View for Line {
    type V = LineView;

    open spec fn view(&self) -> LineView {
        LineView { stream: self.stream, text: self.text@ }
    }
}

/// The line that an action puts on the console, if it puts one there:
/// the acknowledgment of a shutdown on standard output, the report of an
/// error of the serving loop, with its detail, on standard error.
pub open spec fn line_spec(action: Action, detail: Seq<char>) -> Option<LineView> {
    match action {
        Action::AnnounceShutdown => Some(
            LineView { stream: Stream::Output, text: SHUTDOWN_NOTICE@ },
        ),
        Action::ReportServerError => Some(
            LineView { stream: Stream::Error, text: SERVER_ERROR_OPENING@ + detail },
        ),
        Action::Stop => None,
        Action::Ignore => None,
    }
}

/// The banner for a server that listens on `address`.
pub fn listening_banner(address: &str) -> (banner: String)
    ensures
        banner@ == BANNER_OPENING@ + address@,
{
    String::from_str(BANNER_OPENING).concat(address)
}

/// The line that `action` puts on the console, if any. `detail` is the text
/// of the error that ended the serving loop; it is read only where that error
/// is reported.
pub fn line_for(action: Action, detail: &str) -> (line: Option<Line>)
    ensures
        match line {
            Some(l) => line_spec(action, detail@) == Some(l@),
            None => line_spec(action, detail@) is None,
        },
{
    match action {
        Action::AnnounceShutdown => Some(
            Line { stream: Stream::Output, text: String::from_str(SHUTDOWN_NOTICE) },
        ),
        Action::ReportServerError => Some(
            Line {
                stream: Stream::Error,
                text: String::from_str(SERVER_ERROR_OPENING).concat(detail),
            },
        ),
        Action::Stop => None,
        Action::Ignore => None,
    }
}

} // verus!
