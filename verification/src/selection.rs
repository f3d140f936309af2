//! Selecting an area on overlays, one for each monitor.
//!
//! The overlays share a latch: whatever ends the selection first, a chosen area, a cancellation or
//! the timeout, closes them all, and nothing after it does.
use crate::failure::Failure;
use crate::text::{decimal_text, joined};
use vstd::prelude::*;
use vstd::string::StringExecFns;

verus! {

/// How long a single overlay waits for a drag, in seconds.
pub const SELECTION_TIMEOUT_SECONDS: u64 = 45;

/// How long overlays on this many monitors wait.
pub open spec fn patience(monitors: usize) -> Option<u64> {
    if monitors <= 1 {
        Some(45)
    } else {
        None
    }
}

/// How long the overlays wait for a drag: without limit, if there are several.
pub fn selection_timeout(monitors: usize) -> (seconds: Option<u64>)
    ensures
        seconds == if monitors > 1 {
            None
        } else {
            Some(SELECTION_TIMEOUT_SECONDS)
        },
        seconds == patience(monitors),
{
    if monitors > 1 {
        None
    } else {
        Some(SELECTION_TIMEOUT_SECONDS)
    }
}

/// The area that is being dragged out on one overlay.
pub struct SelectionState<P> {
    pub start: Option<P>,
    pub current: Option<P>,
}

impl<P> Default for SelectionState<P> {
    /// Nothing is selected yet.
    fn default() -> (state: Self)
        ensures
            state.start is None,
            state.current is None,
    {
        SelectionState { start: None, current: None }
    }
}

impl<P: Copy> SelectionState<P> {
    /// The drag begins at a point.
    pub fn begin(&mut self, point: P)
        ensures
            final(self).start == Some(point),
            final(self).current == Some(point),
    {
        self.start = Some(point);
        self.current = Some(point);
    }

    /// The pointer has moved to a point. This counts, and asks for a redraw, only during a drag.
    pub fn drag_to(&mut self, point: P) -> (redraw: bool)
        ensures
            redraw == (old(self).start is Some),
            final(self).start == old(self).start,
            final(self).current == if redraw {
                Some(point)
            } else {
                old(self).current
            },
    {
        if self.start.is_some() {
            self.current = Some(point);
            true
        } else {
            false
        }
    }
}

/// What may end a selection.
#[derive(Clone, Copy, PartialEq, Eq, Structural, Debug)]
pub enum SelectionEvent {
    /// The user cancelled it.
    Cancelled,
    /// Its time is over. `drag_begun` says whether the user had begun a drag.
    Expired { drag_begun: bool },
    /// A drag has ended. `drag_begun` says whether it had been seen to begin.
    Dragged { drag_begun: bool, large_enough: bool },
}

/// Whether an event ends a selection and closes its overlays.
pub open spec fn ends(finished: bool, event: SelectionEvent) -> bool {
    !finished && match event {
        SelectionEvent::Cancelled => true,
        SelectionEvent::Expired { drag_begun } => !drag_begun,
        SelectionEvent::Dragged { drag_begun, large_enough } => drag_begun && large_enough,
    }
}

/// Whether a selection has ended after these events.
pub open spec fn ended_by(events: Seq<SelectionEvent>) -> bool
    decreases events.len(),
{
    events.len() > 0 && (ended_by(events.drop_last()) || ends(
        ended_by(events.drop_last()),
        events.last(),
    ))
}

/// How often the overlays are closed in the course of these events.
pub open spec fn closings(events: Seq<SelectionEvent>) -> int
    decreases events.len(),
{
    if events.len() == 0 {
        0
    } else {
        closings(events.drop_last()) + if ends(ended_by(events.drop_last()), events.last()) {
            1int
        } else {
            0
        }
    }
}

/// Which overlays a key closes.
#[derive(Clone, Copy, PartialEq, Eq, Structural, Debug)]
pub enum Dismissal {
    All,
    This,
}

/// Whether the selection has ended.
pub struct SelectionLatch {
    pub finished: bool,
}

impl SelectionLatch {
    /// The selection is under way.
    pub fn new() -> (latch: Self)
        ensures
            !latch.finished,
    {
        SelectionLatch { finished: false }
    }

    /// Takes an event. The overlays are to be closed, and the area of a drag is taken, if it ends
    /// the selection.
    pub fn take(&mut self, event: SelectionEvent) -> (close_all: bool)
        ensures
            close_all == ends(old(self).finished, event),
            final(self).finished == (old(self).finished || close_all),
    {
        if self.finished {
            return false;
        }
        let close_all: bool = match event {
            SelectionEvent::Cancelled => true,
            SelectionEvent::Expired { drag_begun } => !drag_begun,
            SelectionEvent::Dragged { drag_begun, large_enough } => drag_begun && large_enough,
        };
        self.finished = close_all;
        close_all
    }

    /// A drag has ended on an overlay. The screenshot is opened for it if the selection is under
    /// way and the drag, which had been seen to begin, covers enough of the overlay.
    pub fn opens_screenshot(&self, drag_begun: bool, large_enough: bool) -> (opens: bool)
        ensures
            opens == ends(self.finished, SelectionEvent::Dragged { drag_begun, large_enough }),
    {
        !self.finished && drag_begun && large_enough
    }

    /// The screenshot was opened for a drag, or could not be. In the second case there is a message
    /// to show. Neither ends the selection: the latch stays as it is.
    pub fn screenshot_opened(&self, opened: Result<(), String>) -> (message: Option<String>)
        ensures
            match opened {
                Ok(_) => message is None,
                Err(error) => message matches Some(message) && message@ == Failure::Selection(
                    error,
                ).text(),
            },
    {
        match opened {
            Ok(()) => None,
            Err(error) => Some(Failure::Selection(error).message()),
        }
    }

    /// Escape was pressed on an overlay: all of them close, or, if the selection had ended before,
    /// the one that is still there.
    pub fn escape(&mut self) -> (dismissal: Dismissal)
        ensures
            dismissal == if old(self).finished {
                Dismissal::This
            } else {
                Dismissal::All
            },
            dismissal == Dismissal::All <==> ends(old(self).finished, SelectionEvent::Cancelled),
            final(self).finished,
    {
        if self.take(SelectionEvent::Cancelled) {
            Dismissal::All
        } else {
            Dismissal::This
        }
    }
}

/// However many things happen, the overlays are closed at most once, and once exactly when the
/// selection has ended.
pub proof fn law_overlays_close_once(events: Seq<SelectionEvent>)
    ensures
        closings(events) == if ended_by(events) {
            1int
        } else {
            0
        },
    decreases events.len(),
{
    if events.len() > 0 {
        law_overlays_close_once(events.drop_last());
    }
}

/// What an overlay is titled.
pub open spec fn overlay_title(process: u32, index: usize, monitors: usize) -> Seq<char> {
    if monitors <= 1 {
        "ScreenInk \u{2014} Select an area"@
    } else {
        "ScreenInk Selection "@ + crate::text::decimal(process as nat) + "-"@
            + crate::text::decimal(index as nat)
    }
}

/// The title of an overlay. With several monitors it tells the overlays of this process apart.
pub fn selection_title(process: u32, index: usize, monitors: usize) -> (title: String)
    ensures
        title@ == if monitors > 1 {
            "ScreenInk Selection "@ + crate::text::decimal(process as nat) + "-"@
                + crate::text::decimal(index as nat)
        } else {
            "ScreenInk \u{2014} Select an area"@
        },
        title@ == overlay_title(process, index, monitors),
{
    if monitors > 1 {
        let process_text: String = decimal_text(process as u64);
        let index_text: String = decimal_text(index as u64);
        let mut title: String = joined("ScreenInk Selection ", process_text.as_str());
        title.append("-");
        title.append(index_text.as_str());
        title
    } else {
        "ScreenInk \u{2014} Select an area".to_owned()
    }
}

/// What ends a selection that is under way: every cancellation, the end of its time unless a drag
/// has begun, and every drag that was seen to begin and is large enough. Nothing ends one that has
/// ended.
pub proof fn law_what_ends_a_selection(drag_begun: bool, large_enough: bool, event: SelectionEvent)
    ensures
        ends(false, SelectionEvent::Cancelled),
        ends(false, SelectionEvent::Expired { drag_begun }) <==> !drag_begun,
        ends(false, SelectionEvent::Dragged { drag_begun, large_enough }) <==> drag_begun
            && large_enough,
        !ends(true, event),
{
}

/// A selection has ended exactly when one of the events would have ended it while it was under way.
pub proof fn law_selection_ends_with_the_first_end(events: Seq<SelectionEvent>)
    ensures
        ended_by(events) <==> exists|i: int|
            0 <= i < events.len() && ends(false, #[trigger] events[i]),
    decreases events.len(),
{
    if events.len() > 0 {
        let earlier = events.drop_last();
        law_selection_ends_with_the_first_end(earlier);
        assert(events[events.len() - 1] == events.last());
        assert(forall|i: int| 0 <= i < earlier.len() ==> #[trigger] earlier[i] == events[i]);
        if exists|i: int| 0 <= i < events.len() && ends(false, #[trigger] events[i]) {
            let i = choose|i: int| 0 <= i < events.len() && ends(false, #[trigger] events[i]);
            if i < earlier.len() {
                assert(ends(false, earlier[i]));
            }
        }
    }
}

/// A single overlay waits 45 seconds, and several wait without limit.
pub proof fn law_only_a_single_overlay_times_out(monitors: usize)
    ensures
        monitors <= 1 ==> patience(monitors) == Some(45u64),
        monitors > 1 ==> patience(monitors) is None,
{
}

/// The overlays of one process have different titles where there are several, and these tell their
/// process and their place.
pub proof fn law_titles_tell_overlays_apart(process: u32, a: usize, b: usize, monitors: usize)
    requires
        monitors > 1,
    ensures
        a != b ==> overlay_title(process, a, monitors) != overlay_title(process, b, monitors),
        ({
            let title = overlay_title(process, a, monitors);
            let split = 20 + crate::text::decimal(process as nat).len() as int;
            &&& title.take(20) == "ScreenInk Selection "@
            &&& title.subrange(20, split) == crate::text::decimal(process as nat)
            &&& title[split] == '-'
            &&& title.skip(split + 1) == crate::text::decimal(a as nat)
        }),
        overlay_title(process, a, 1) == "ScreenInk \u{2014} Select an area"@,
{
    reveal_strlit("ScreenInk Selection ");
    reveal_strlit("-");
    let split = 20 + crate::text::decimal(process as nat).len() as int;
    let (one, other) = (overlay_title(process, a, monitors), overlay_title(process, b, monitors));
    assert(one.take(20) =~= "ScreenInk Selection "@);
    assert(one.subrange(20, split) =~= crate::text::decimal(process as nat));
    assert(one.skip(split + 1) =~= crate::text::decimal(a as nat));
    assert(other.skip(split + 1) =~= crate::text::decimal(b as nat));
    if one == other {
        crate::text::law_decimal_is_injective(a as nat, b as nat);
    }
}

} // verus!
