//! What can go wrong, and how the user is told.
use crate::text::{decimal_text, joined};
use vstd::prelude::*;
use vstd::string::StringExecFns;

verus! {

/// A step that failed. The texts are those of the underlying errors.
#[derive(Debug)]
pub enum Failure {
    /// The path of the running program is unknown.
    Executable(String),
    /// The hidden editor service did not start.
    Service(String),
    /// The runtime of the portal request did not start.
    PortalRuntime(String),
    /// The portal answered with something that is not a local file.
    PortalLocation,
    /// The portal did not answer within this many seconds.
    PortalTimeout(u64),
    /// The portal request failed.
    Portal(String),
    /// The screenshot could not be copied for the editor.
    Handoff(String),
    /// The editor service could not be told of the screenshot.
    Delivery(String),
    /// The editor service refused the screenshot, with this exit status.
    Rejection(String),
    /// The screenshot could not be decoded.
    Screenshot(String),
    /// The output directory could not be made.
    OutputDirectory { directory: String, error: String },
    /// The picture could not be encoded or written.
    Png(String),
    /// There is no display, so no clipboard.
    Display,
    /// The saved file could not be read back.
    PngReading(String),
    /// The clipboard did not take the picture.
    Clipboard(String),
    /// The X11 server could not be reached.
    X11Connection(String),
    /// The X11 screen names a visual that the server does not list.
    X11Visual,
    /// The screen image could not be asked for.
    X11Request(String),
    /// The screen image did not arrive.
    X11Reply(String),
    /// The X11 server does not say how pixels of this depth are stored.
    X11PixelFormat,
    /// The screen image could not be saved.
    X11Saving(String),
    /// The screenshot to select an area on could not be opened.
    Selection(String),
}

impl Failure {
    /// The message that the user sees.
    pub open spec fn text(self) -> Seq<char> {
        match self {
            Failure::Executable(error) => "Could not find ScreenInk executable: "@ + error@,
            Failure::Service(error) => "Could not start the ScreenInk service: "@ + error@,
            Failure::PortalRuntime(error) => "Could not start the portal runtime: "@ + error@,
            Failure::PortalLocation => "The screenshot portal returned a non-local file"@,
            Failure::PortalTimeout(seconds) => "The desktop screenshot portal timed out after "@
                + crate::text::decimal(seconds as nat) + " seconds"@,
            Failure::Portal(error) => "The desktop screenshot portal failed: "@ + error@,
            Failure::Handoff(error) => "Could not prepare the portal image for editing: "@ + error@,
            Failure::Delivery(error) => "Could not send screenshot to ScreenInk: "@ + error@,
            Failure::Rejection(status) => "ScreenInk rejected the screenshot (exit status "@
                + status@ + ")"@,
            Failure::Screenshot(error) => "Could not open the portal screenshot: "@ + error@,
            Failure::OutputDirectory { directory, error } => "Could not create output directory "@
                + directory@ + ": "@ + error@,
            Failure::Png(error) => "Could not save PNG: "@ + error@,
            Failure::Display => "No graphical display is available"@,
            Failure::PngReading(error) => "Could not read saved PNG for clipboard: "@ + error@,
            Failure::Clipboard(error) => "Could not place PNG in the clipboard: "@ + error@,
            Failure::X11Connection(error) => "Could not connect to X11: "@ + error@,
            Failure::X11Visual => "Could not find the X11 root visual"@,
            Failure::X11Request(error) => "Could not request the X11 screen image: "@ + error@,
            Failure::X11Reply(error) => "Could not receive the X11 screen image: "@ + error@,
            Failure::X11PixelFormat => "Could not determine the X11 pixel format"@,
            Failure::X11Saving(error) => "Could not save the X11 screen image: "@ + error@,
            Failure::Selection(error) => "Could not open the screenshot: "@ + error@,
        }
    }

    /// The message that the user sees.
    pub fn message(&self) -> (message: String)
        ensures
            message@ == self.text(),
    {
        match self {
            Failure::Executable(error) => joined(
                "Could not find ScreenInk executable: ",
                error.as_str(),
            ),
            Failure::Service(error) => joined(
                "Could not start the ScreenInk service: ",
                error.as_str(),
            ),
            Failure::PortalRuntime(error) => joined(
                "Could not start the portal runtime: ",
                error.as_str(),
            ),
            Failure::PortalLocation => "The screenshot portal returned a non-local file".to_owned(),
            Failure::PortalTimeout(seconds) => {
                let count: String = decimal_text(*seconds);
                let mut message: String = joined(
                    "The desktop screenshot portal timed out after ",
                    count.as_str(),
                );
                message.append(" seconds");
                message
            },
            Failure::Portal(error) => joined(
                "The desktop screenshot portal failed: ",
                error.as_str(),
            ),
            Failure::Handoff(error) => joined(
                "Could not prepare the portal image for editing: ",
                error.as_str(),
            ),
            Failure::Delivery(error) => joined(
                "Could not send screenshot to ScreenInk: ",
                error.as_str(),
            ),
            Failure::Rejection(status) => {
                let mut message: String = joined(
                    "ScreenInk rejected the screenshot (exit status ",
                    status.as_str(),
                );
                message.append(")");
                message
            },
            Failure::Screenshot(error) => joined(
                "Could not open the portal screenshot: ",
                error.as_str(),
            ),
            Failure::OutputDirectory { directory, error } => {
                let mut message: String = joined(
                    "Could not create output directory ",
                    directory.as_str(),
                );
                message.append(": ");
                message.append(error.as_str());
                message
            },
            Failure::Png(error) => joined("Could not save PNG: ", error.as_str()),
            Failure::Display => "No graphical display is available".to_owned(),
            Failure::PngReading(error) => joined(
                "Could not read saved PNG for clipboard: ",
                error.as_str(),
            ),
            Failure::Clipboard(error) => joined(
                "Could not place PNG in the clipboard: ",
                error.as_str(),
            ),
            Failure::X11Connection(error) => joined("Could not connect to X11: ", error.as_str()),
            Failure::X11Visual => "Could not find the X11 root visual".to_owned(),
            Failure::X11Request(error) => joined(
                "Could not request the X11 screen image: ",
                error.as_str(),
            ),
            Failure::X11Reply(error) => joined(
                "Could not receive the X11 screen image: ",
                error.as_str(),
            ),
            Failure::X11PixelFormat => "Could not determine the X11 pixel format".to_owned(),
            Failure::X11Saving(error) => joined(
                "Could not save the X11 screen image: ",
                error.as_str(),
            ),
            Failure::Selection(error) => joined("Could not open the screenshot: ", error.as_str()),
        }
    }
}

/// The user is told what failed and, whole, why: every message is its own beginning followed by the
/// text of the underlying error, and of a timeout its seconds.
pub proof fn law_messages_tell_what_failed_and_why(error: String, other: String, seconds: u64)
    ensures
        Failure::Executable(error).text() == "Could not find ScreenInk executable: "@ + error@,
        Failure::Service(error).text() == "Could not start the ScreenInk service: "@ + error@,
        Failure::PortalRuntime(error).text() == "Could not start the portal runtime: "@ + error@,
        Failure::PortalLocation.text() == "The screenshot portal returned a non-local file"@,
        Failure::PortalTimeout(seconds).text() == "The desktop screenshot portal timed out after "@
            + crate::text::decimal(seconds as nat) + " seconds"@,
        Failure::Portal(error).text() == "The desktop screenshot portal failed: "@ + error@,
        Failure::Handoff(error).text() == "Could not prepare the portal image for editing: "@
            + error@,
        Failure::Delivery(error).text() == "Could not send screenshot to ScreenInk: "@ + error@,
        Failure::Rejection(error).text() == "ScreenInk rejected the screenshot (exit status "@
            + error@ + ")"@,
        Failure::Screenshot(error).text() == "Could not open the portal screenshot: "@ + error@,
        (Failure::OutputDirectory { directory: other, error }).text()
            == "Could not create output directory "@ + other@ + ": "@ + error@,
        Failure::Png(error).text() == "Could not save PNG: "@ + error@,
        Failure::Display.text() == "No graphical display is available"@,
        Failure::PngReading(error).text() == "Could not read saved PNG for clipboard: "@ + error@,
        Failure::Clipboard(error).text() == "Could not place PNG in the clipboard: "@ + error@,
        Failure::X11Connection(error).text() == "Could not connect to X11: "@ + error@,
        Failure::X11Visual.text() == "Could not find the X11 root visual"@,
        Failure::X11Request(error).text() == "Could not request the X11 screen image: "@ + error@,
        Failure::X11Reply(error).text() == "Could not receive the X11 screen image: "@ + error@,
        Failure::X11PixelFormat.text() == "Could not determine the X11 pixel format"@,
        Failure::X11Saving(error).text() == "Could not save the X11 screen image: "@ + error@,
        Failure::Selection(error).text() == "Could not open the screenshot: "@ + error@,
{
}

} // verus!
