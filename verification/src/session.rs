//! The long-lived editor service: one capture at a time, and one window that owns the clipboard.
//!
//! Windows are known by numbers; the caller gives each window a number of its own.
use crate::failure::Failure;
use vstd::prelude::*;

verus! {

/// The model of the service: whether an editor is open, and the hidden window whose picture is in
/// the clipboard.
pub struct Session {
    pub busy: bool,
    pub owner: Option<u64>,
}

impl Session {
    /// Whether a new capture may begin.
    pub open spec fn admits(self) -> bool {
        !self.busy
    }

    /// What becomes of a screenshot that is sent now.
    pub open spec fn answer(self) -> OpenRequest {
        if self.busy {
            OpenRequest::Discard
        } else {
            OpenRequest::Decode { retaining: self.owner is Some }
        }
    }

    /// A capture has begun.
    pub open spec fn capturing(self) -> Session {
        Session { busy: true, owner: self.owner }
    }

    /// The capture has ended without a picture.
    pub open spec fn finished(self) -> Session {
        Session { busy: false, owner: self.owner }
    }

    /// The window has put its picture in the clipboard.
    pub open spec fn retained(self, window: u64) -> Session {
        Session { busy: false, owner: Some(window) }
    }

    /// The window that loses the clipboard to `window`.
    pub open spec fn displaced(self, window: u64) -> Option<u64> {
        if self.owner == Some(window) {
            None
        } else {
            self.owner
        }
    }

    /// The window was closed.
    pub open spec fn released(self, window: u64) -> Session {
        Session {
            busy: false,
            owner: if self.owner == Some(window) {
                None
            } else {
                self.owner
            },
        }
    }
}

/// The state of the service.
pub struct SessionState {
    busy: bool,
    has_clipboard: bool,
    clipboard_owner: Option<u64>,
}

impl View for SessionState {
    type V = Session;

    closed spec fn view(&self) -> Session {
        Session { busy: self.busy, owner: self.clipboard_owner }
    }
}

impl Default for SessionState {
    /// No editor is open and nothing was copied yet.
    fn default() -> (state: Self)
        ensures
            state@ == (Session { busy: false, owner: None }),
    {
        SessionState { busy: false, has_clipboard: false, clipboard_owner: None }
    }
}

/// What becomes of a screenshot that was sent to the service.
#[derive(Clone, Copy, PartialEq, Eq, Structural, Debug)]
pub enum OpenRequest {
    /// An editor is open: drop the screenshot.
    Discard,
    /// Decode the screenshot; the file may be removed. `retaining` says whether an earlier picture
    /// stays in the clipboard meanwhile.
    Decode { retaining: bool },
}

/// What an editor window does after a save.
#[derive(Debug)]
pub enum Finish {
    /// Hide this window, which now owns the clipboard, and close the earlier owner if there is one.
    Hide { close: Option<u64> },
    /// Show the message and keep editing.
    ShowError { message: String },
}

impl SessionState {
    /// There is a picture in the clipboard exactly when a window owns it.
    #[verifier::type_invariant]
    spec fn well_formed(self) -> bool {
        self.has_clipboard == (self.clipboard_owner is Some)
    }

    /// Whether an earlier picture is in the clipboard.
    pub fn has_clipboard(&self) -> (has: bool)
        ensures
            has == (self@.owner is Some),
    {
        proof {
            use_type_invariant(&*self);
        }
        self.has_clipboard
    }

    /// Begins a capture, unless one is under way.
    pub fn begin_capture(&mut self) -> (begun: bool)
        ensures
            begun == old(self)@.admits(),
            final(self)@ == old(self)@.capturing(),
    {
        proof {
            use_type_invariant(&*self);
        }
        let begun: bool = !self.busy;
        self.busy = true;
        begun
    }

    /// Ends a capture.
    pub fn finish_capture(&mut self)
        ensures
            final(self)@ == old(self)@.finished(),
    {
        proof {
            use_type_invariant(&*self);
        }
        self.busy = false;
    }

    /// Ends the capture of a window whose picture went to the clipboard. The result is the window
    /// that owned the clipboard before, which is to be closed, if that was another one.
    pub fn retain_clipboard(&mut self, window: u64) -> (close: Option<u64>)
        ensures
            final(self)@ == old(self)@.retained(window),
            close == old(self)@.displaced(window),
    {
        let previous: Option<u64> = self.clipboard_owner;
        *self = SessionState { busy: false, has_clipboard: true, clipboard_owner: Some(window) };
        match previous {
            Some(owner) => if owner != window {
                Some(owner)
            } else {
                None
            },
            None => None,
        }
    }

    /// Notes that a window was closed. The clipboard is given up if it was this window's.
    pub fn release_window(&mut self, window: u64)
        ensures
            final(self)@ == old(self)@.released(window),
    {
        proof {
            use_type_invariant(&*self);
        }
        let is_owner: bool = match self.clipboard_owner {
            Some(owner) => owner == window,
            None => false,
        };
        if is_owner {
            *self = SessionState { busy: false, has_clipboard: false, clipboard_owner: None };
        } else {
            self.busy = false;
        }
    }

    /// A screenshot was sent to the service. It is dropped, and nothing changes, while an editor
    /// is open; otherwise the service is busy from now on.
    pub fn request_editor(&mut self) -> (request: OpenRequest)
        ensures
            request == if old(self)@.admits() {
                OpenRequest::Decode { retaining: old(self)@.owner is Some }
            } else {
                OpenRequest::Discard
            },
            request == old(self)@.answer(),
            final(self)@ == old(self)@.capturing(),
    {
        if !self.begin_capture() {
            return OpenRequest::Discard;
        }
        OpenRequest::Decode { retaining: self.has_clipboard() }
    }

    /// The screenshot was decoded, or could not be. In the first case the editor opens and the
    /// service stays as it is; in the second the capture ends, with a message to show.
    pub fn screenshot_decoded(&mut self, decoded: Result<(), String>) -> (message: Option<String>)
        ensures
            match decoded {
                Ok(_) => message is None && final(self)@ == old(self)@,
                Err(error) => {
                    &&& message matches Some(message) && message@ == Failure::Screenshot(
                        error,
                    ).text()
                    &&& final(self)@ == old(self)@.finished()
                },
            },
    {
        match decoded {
            Ok(()) => None,
            Err(error) => {
                self.finish_capture();
                Some(Failure::Screenshot(error).message())
            },
        }
    }

    /// A window has saved and copied its picture, or failed to. In the first case it keeps the
    /// clipboard and the service is free again; in the second nothing changes.
    pub fn finish_editor(&mut self, window: u64, saved: Result<(), Failure>) -> (finish: Finish)
        ensures
            match saved {
                Ok(_) => {
                    &&& finish == Finish::Hide { close: old(self)@.displaced(window) }
                    &&& final(self)@ == old(self)@.retained(window)
                },
                Err(failure) => {
                    &&& finish matches Finish::ShowError { message } && message@ == failure.text()
                    &&& final(self)@ == old(self)@
                },
            },
    {
        match saved {
            Ok(()) => Finish::Hide { close: self.retain_clipboard(window) },
            Err(failure) => Finish::ShowError { message: failure.message() },
        }
    }
}

/// Only one capture runs at a time: once one has begun, no other is admitted, and a refused one
/// changes nothing; each of the ways in which a capture ends admits the next.
pub proof fn law_one_capture_at_a_time(session: Session, window: u64)
    ensures
        !session.capturing().admits(),
        !session.admits() ==> session.capturing() == session,
        session.finished().admits(),
        session.retained(window).admits(),
        session.released(window).admits(),
{
}

/// A picture stays in the clipboard through captures that begin or fail and through the closing
/// of any window but its own. In particular it survives the closing of the window that it
/// displaced.
pub proof fn law_clipboard_is_kept(session: Session, window: u64, other: u64)
    requires
        window != other,
    ensures
        session.retained(window).capturing().owner == Some(window),
        session.retained(window).capturing().finished().owner == Some(window),
        session.retained(window).released(other).owner == Some(window),
        session.displaced(window) matches Some(previous) ==> session.retained(window).released(
            previous,
        ).owner == Some(window),
{
}

/// The last saved picture is the one in the clipboard, the window before it is the one to close,
/// and a window that saves twice closes nothing.
pub proof fn law_last_save_owns_the_clipboard(session: Session, first: u64, second: u64)
    ensures
        session.retained(first).retained(second).owner == Some(second),
        first != second ==> session.retained(first).displaced(second) == Some(first),
        session.retained(first).displaced(first) is None,
{
}

/// Closing the window that owns the clipboard gives the clipboard up.
pub proof fn law_closing_the_owner_releases(session: Session, window: u64)
    ensures
        session.retained(window).released(window).owner is None,
{
}

/// In every state, closing a window that does not own the clipboard leaves the owner as it is, and
/// closing the one that does leaves none. Either way the next capture is admitted.
pub proof fn law_only_the_owner_gives_up_the_clipboard(session: Session, window: u64)
    ensures
        session.owner != Some(window) ==> session.released(window).owner == session.owner,
        session.owner == Some(window) ==> session.released(window).owner is None,
        !session.released(window).busy,
{
}

/// In every state, a capture is admitted exactly when none is under way; beginning one and ending
/// it without a picture changes nothing but that, and a window that saves becomes the owner.
pub proof fn law_captures_leave_the_clipboard(session: Session, window: u64)
    ensures
        session.admits() <==> !session.busy,
        session.capturing().busy,
        session.capturing().owner == session.owner,
        !session.finished().busy,
        session.finished().owner == session.owner,
        !session.retained(window).busy,
        session.retained(window).owner == Some(window),
{
}

/// In every state, a window that saves displaces the owner before it, and only that: not itself,
/// and nothing where there was no owner.
pub proof fn law_a_save_displaces_the_owner(session: Session, window: u64)
    ensures
        match session.displaced(window) {
            Some(previous) => session.owner == Some(previous) && previous != window,
            None => session.owner is None || session.owner == Some(window),
        },
{
}

/// What may happen to the service.
pub enum SessionEvent {
    Requested,
    NotDecoded,
    Saved { window: u64 },
    Closed { window: u64 },
}

/// The state of the service after these events.
pub open spec fn session_after(events: Seq<SessionEvent>) -> Session
    decreases events.len(),
{
    if events.len() == 0 {
        Session { busy: false, owner: None }
    } else {
        let before = session_after(events.drop_last());
        match events.last() {
            SessionEvent::Requested => before.capturing(),
            SessionEvent::NotDecoded => before.finished(),
            SessionEvent::Saved { window } => before.retained(window),
            SessionEvent::Closed { window } => before.released(window),
        }
    }
}

/// The picture that was saved last stays in the clipboard until its window is closed, whatever else
/// happens: however many captures begin, fail or are cancelled, and whichever other windows are
/// closed.
pub proof fn law_the_last_save_stays_until_its_window_closes(
    events: Seq<SessionEvent>,
    saved: int,
    window: u64,
)
    requires
        0 <= saved < events.len(),
        events[saved] == (SessionEvent::Saved { window }),
        forall|i: int|
            saved < i < events.len() ==> match #[trigger] events[i] {
                SessionEvent::Saved { .. } => false,
                SessionEvent::Closed { window: closed } => closed != window,
                _ => true,
            },
    ensures
        session_after(events).owner == Some(window),
    decreases events.len(),
{
    if saved < events.len() - 1 {
        let earlier = events.drop_last();
        assert forall|i: int| saved < i < earlier.len() implies match #[trigger] earlier[i] {
            SessionEvent::Saved { .. } => false,
            SessionEvent::Closed { window: closed } => closed != window,
            _ => true,
        } by {
            assert(earlier[i] == events[i]);
        }
        law_the_last_save_stays_until_its_window_closes(earlier, saved, window);
        assert(events.last() == events[events.len() - 1]);
    }
}

/// In every state, a screenshot is dropped exactly when an editor is open; otherwise it is decoded,
/// and an earlier picture is retained exactly when a window owns the clipboard.
pub proof fn law_screenshots_are_dropped_only_while_busy(session: Session)
    ensures
        session.answer() == OpenRequest::Discard <==> session.busy,
        session.answer() == (OpenRequest::Decode { retaining: true }) <==> !session.busy
            && session.owner is Some,
        session.answer() == (OpenRequest::Decode { retaining: false }) <==> !session.busy
            && session.owner is None,
{
}

} // verus!
