//! The annotations of one screenshot and the tools that make them.
//!
//! The editor is generic over its points and over the numbers of a brush, so that it holds
//! whatever the pointer and the colour chooser deliver.
use vstd::prelude::*;

verus! {

/// The X11 keycode of the physical key in the Z position. Switching the keyboard language leaves
/// keycodes as they are.
pub const X11_KEYCODE_Z: u32 = 52;

/// What a drag draws.
#[derive(Clone, Copy, PartialEq, Eq, Structural, Debug)]
pub enum Tool {
    Pen,
    Rectangle,
}

impl Default for Tool {
    /// The pen.
    fn default() -> (tool: Self)
        ensures
            tool == Tool::Pen,
    {
        Tool::Pen
    }
}

/// The colour and the thickness of a line.
#[derive(Clone, Copy, Debug)]
pub struct Brush<F> {
    pub red: F,
    pub green: F,
    pub blue: F,
    pub width: F,
}

/// One drawn item, in the brush that was set when it was begun.
pub enum Annotation<P, F> {
    Freehand { points: Vec<P>, style: Brush<F> },
    Rectangle { start: P, end: P, style: Brush<F> },
}

/// The model of an annotation.
pub enum Drawing<P, F> {
    Freehand { points: Seq<P>, style: Brush<F> },
    Rectangle { start: P, end: P, style: Brush<F> },
}

impl<P, F> View for Annotation<P, F> {
    type V = Drawing<P, F>;

    open spec fn view(&self) -> Drawing<P, F> {
        match *self {
            Annotation::Freehand { points, style } => Drawing::Freehand { points: points@, style },
            Annotation::Rectangle { start, end, style } => Drawing::Rectangle {
                start,
                end,
                style,
            },
        }
    }
}

/// The models of annotations.
pub open spec fn models<P, F>(annotations: Seq<Annotation<P, F>>) -> Seq<Drawing<P, F>> {
    annotations.map_values(|annotation: Annotation<P, F>| annotation@)
}

/// The brush in another thickness.
pub open spec fn thickened<F>(brush: Brush<F>, width: F) -> Brush<F> {
    Brush { red: brush.red, green: brush.green, blue: brush.blue, width }
}

/// The brush in another colour.
pub open spec fn recolored<F>(brush: Brush<F>, red: F, green: F, blue: F) -> Brush<F> {
    Brush { red, green, blue, width: brush.width }
}

/// What a drag with this tool and brush has drawn when it begins.
pub open spec fn begun<P, F>(tool: Tool, point: P, style: Brush<F>) -> Drawing<P, F> {
    match tool {
        Tool::Pen => Drawing::Freehand { points: seq![point], style },
        Tool::Rectangle => Drawing::Rectangle { start: point, end: point, style },
    }
}

/// The drawing after the pointer was dragged on to `point`: a line gains the point, a rectangle
/// gets it as its other corner.
pub open spec fn extended<P, F>(drawing: Drawing<P, F>, point: P) -> Drawing<P, F> {
    match drawing {
        Drawing::Freehand { points, style } => Drawing::Freehand {
            points: points.push(point),
            style,
        },
        Drawing::Rectangle { start, end: _, style } => Drawing::Rectangle {
            start,
            end: point,
            style,
        },
    }
}

/// The drawings after the pointer was dragged on to `point`. Only the last one changes.
pub open spec fn dragged<P, F>(drawings: Seq<Drawing<P, F>>, point: P) -> Seq<Drawing<P, F>> {
    if drawings.len() == 0 {
        drawings
    } else {
        drawings.drop_last().push(extended(drawings.last(), point))
    }
}

/// The drawings without the last one.
pub open spec fn undone<P, F>(drawings: Seq<Drawing<P, F>>) -> Seq<Drawing<P, F>> {
    if drawings.len() == 0 {
        drawings
    } else {
        drawings.drop_last()
    }
}

/// The keys that the editor tells apart.
#[derive(Clone, Copy, PartialEq, Eq, Structural, Debug)]
pub enum Key {
    Escape,
    Return,
    Other,
}

/// What a key press asks of the editor window.
#[derive(Clone, Copy, PartialEq, Eq, Structural, Debug)]
pub enum KeyAction {
    /// The last annotation was removed: redraw.
    Redraw,
    /// Close the window without saving.
    Close,
    /// Save the picture and copy it to the clipboard.
    Save,
    /// The key means nothing here: let others have it.
    Proceed,
}

/// What a key press means. Control with the key in the Z position undoes, whatever that key is
/// labelled; Escape cancels and Return saves.
pub open spec fn key_meaning(key: Key, keycode: u32, control: bool) -> KeyAction {
    if control && keycode == X11_KEYCODE_Z {
        KeyAction::Redraw
    } else {
        match key {
            Key::Escape => KeyAction::Close,
            Key::Return => KeyAction::Save,
            Key::Other => KeyAction::Proceed,
        }
    }
}

/// The state of an editor window.
pub struct Editor<P, F> {
    annotations: Vec<Annotation<P, F>>,
    tool: Tool,
    brush: Brush<F>,
}

impl<P: Copy, F: Copy> Editor<P, F> {
    /// What has been drawn, oldest first.
    pub closed spec fn drawings(self) -> Seq<Drawing<P, F>> {
        models(self.annotations@)
    }

    /// The tool that the next drag uses.
    pub closed spec fn selected(self) -> Tool {
        self.tool
    }

    /// The brush that the next drag uses.
    pub closed spec fn style(self) -> Brush<F> {
        self.brush
    }

    /// An editor with nothing drawn yet and the pen selected.
    pub fn new(brush: Brush<F>) -> (editor: Self)
        ensures
            editor.drawings() == Seq::<Drawing<P, F>>::empty(),
            editor.selected() == Tool::Pen,
            editor.style() == brush,
    {
        let editor = Editor { annotations: Vec::new(), tool: Tool::Pen, brush };
        assert(editor.drawings() =~= Seq::<Drawing<P, F>>::empty());
        editor
    }

    /// The annotations, oldest first.
    pub fn annotations(&self) -> (annotations: &Vec<Annotation<P, F>>)
        ensures
            models(annotations@) == self.drawings(),
    {
        &self.annotations
    }

    /// The brush that the next drag uses.
    pub fn brush(&self) -> (brush: Brush<F>)
        ensures
            brush == self.style(),
    {
        self.brush
    }

    /// Begins a new annotation at a point, with the selected tool and the brush as it is.
    pub fn begin_drag(&mut self, point: P)
        ensures
            final(self).drawings() == old(self).drawings().push(
                begun(old(self).selected(), point, old(self).style()),
            ),
            final(self).selected() == old(self).selected(),
            final(self).style() == old(self).style(),
    {
        let style: Brush<F> = self.brush;
        let annotation: Annotation<P, F> = match self.tool {
            Tool::Pen => {
                let mut points: Vec<P> = Vec::new();
                points.push(point);
                assert(points@ =~= seq![point]);
                Annotation::Freehand { points, style }
            },
            Tool::Rectangle => Annotation::Rectangle { start: point, end: point, style },
        };
        self.annotations.push(annotation);
        assert(self.drawings() =~= old(self).drawings().push(
            begun(old(self).selected(), point, old(self).style()),
        ));
    }

    /// Follows the pointer to a point: the last annotation is drawn on to it. Without any
    /// annotation nothing happens.
    pub fn update_drag(&mut self, point: P)
        ensures
            final(self).drawings() == dragged(old(self).drawings(), point),
            final(self).selected() == old(self).selected(),
            final(self).style() == old(self).style(),
    {
        match self.annotations.pop() {
            None => {},
            Some(Annotation::Freehand { points, style }) => {
                let mut points: Vec<P> = points;
                points.push(point);
                self.annotations.push(Annotation::Freehand { points, style });
            },
            Some(Annotation::Rectangle { start, end: _, style }) => {
                self.annotations.push(Annotation::Rectangle { start, end: point, style });
            },
        }
        assert(self.drawings() =~= dragged(old(self).drawings(), point));
    }

    /// Removes the last annotation, if there is one.
    pub fn undo(&mut self)
        ensures
            final(self).drawings() == undone(old(self).drawings()),
            final(self).selected() == old(self).selected(),
            final(self).style() == old(self).style(),
    {
        let _ = self.annotations.pop();
        assert(self.drawings() =~= undone(old(self).drawings()));
    }

    /// Selects the tool of the drags to come.
    pub fn select_tool(&mut self, tool: Tool)
        ensures
            final(self).drawings() == old(self).drawings(),
            final(self).selected() == tool,
            final(self).style() == old(self).style(),
    {
        self.tool = tool;
    }

    /// Sets the thickness of the lines to come and keeps their colour.
    pub fn set_width(&mut self, width: F)
        ensures
            final(self).drawings() == old(self).drawings(),
            final(self).selected() == old(self).selected(),
            final(self).style() == (Brush { width, ..old(self).style() }),
            final(self).style() == thickened(old(self).style(), width),
    {
        self.brush.width = width;
    }

    /// Sets the colour of the lines to come and keeps their thickness.
    pub fn set_color(&mut self, red: F, green: F, blue: F)
        ensures
            final(self).drawings() == old(self).drawings(),
            final(self).selected() == old(self).selected(),
            final(self).style() == (Brush { red, green, blue, width: old(self).style().width }),
            final(self).style() == recolored(old(self).style(), red, green, blue),
    {
        let width: F = self.brush.width;
        self.brush = Brush { red, green, blue, width };
    }

    /// Answers a key press. Undoing is done here; the window does the rest.
    pub fn press_key(&mut self, key: Key, keycode: u32, control: bool) -> (action: KeyAction)
        ensures
            action == key_meaning(key, keycode, control),
            final(self).drawings() == if action == KeyAction::Redraw {
                undone(old(self).drawings())
            } else {
                old(self).drawings()
            },
            final(self).selected() == old(self).selected(),
            final(self).style() == old(self).style(),
    {
        if control && keycode == X11_KEYCODE_Z {
            self.undo();
            return KeyAction::Redraw;
        }
        match key {
            Key::Escape => KeyAction::Close,
            Key::Return => KeyAction::Save,
            Key::Other => KeyAction::Proceed,
        }
    }
}

/// The drawings after the pointer was dragged along a path.
pub open spec fn dragged_along<P, F>(drawings: Seq<Drawing<P, F>>, path: Seq<P>) -> Seq<
    Drawing<P, F>,
>
    decreases path.len(),
{
    if path.len() == 0 {
        drawings
    } else {
        dragged(dragged_along(drawings, path.drop_last()), path.last())
    }
}

/// What a drag from `start` along a path draws: with the pen a line through every point of it,
/// with the rectangle tool the rectangle between its ends.
pub open spec fn drag_result<P, F>(tool: Tool, start: P, path: Seq<P>, style: Brush<F>) -> Drawing<
    P,
    F,
> {
    match tool {
        Tool::Pen => Drawing::Freehand { points: seq![start] + path, style },
        Tool::Rectangle => Drawing::Rectangle {
            start,
            end: if path.len() == 0 {
                start
            } else {
                path.last()
            },
            style,
        },
    }
}

/// A drag adds one drawing, in the tool and the brush with which it began, and leaves those before
/// it as they are.
pub proof fn law_drag_adds_one_drawing<P, F>(
    drawings: Seq<Drawing<P, F>>,
    tool: Tool,
    start: P,
    path: Seq<P>,
    style: Brush<F>,
)
    ensures
        dragged_along(drawings.push(begun(tool, start, style)), path) == drawings.push(
            drag_result(tool, start, path, style),
        ),
    decreases path.len(),
{
    if path.len() == 0 {
        assert(seq![start] + path =~= seq![start]);
    } else {
        law_drag_adds_one_drawing(drawings, tool, start, path.drop_last(), style);
        let before = drawings.push(drag_result(tool, start, path.drop_last(), style));
        assert(before.drop_last() =~= drawings);
        assert((seq![start] + path.drop_last()).push(path.last()) =~= seq![start] + path);
    }
}

/// Undo removes what the last drag drew, however far it went, and nothing else.
pub proof fn law_undo_reverts_a_drag<P, F>(
    drawings: Seq<Drawing<P, F>>,
    tool: Tool,
    start: P,
    path: Seq<P>,
    style: Brush<F>,
)
    ensures
        undone(dragged_along(drawings.push(begun(tool, start, style)), path)) == drawings,
{
    law_drag_adds_one_drawing(drawings, tool, start, path, style);
    assert(drawings.push(drag_result(tool, start, path, style)).drop_last() =~= drawings);
}

/// The drawings after a number of undos.
pub open spec fn undone_times<P, F>(drawings: Seq<Drawing<P, F>>, times: nat) -> Seq<Drawing<P, F>>
    decreases times,
{
    if times == 0 {
        drawings
    } else {
        undone(undone_times(drawings, (times - 1) as nat))
    }
}

/// Undoing goes back through the drawings, latest first, until none is left, and then does nothing
/// more.
pub proof fn law_undo_goes_back_to_the_start<P, F>(drawings: Seq<Drawing<P, F>>, times: nat)
    ensures
        times <= drawings.len() ==> undone_times(drawings, times) == drawings.take(
            drawings.len() - times,
        ),
        times > drawings.len() ==> undone_times(drawings, times).len() == 0,
    decreases times,
{
    if times == 0 {
        assert(drawings.take(drawings.len() as int) =~= drawings);
    } else {
        law_undo_goes_back_to_the_start(drawings, (times - 1) as nat);
        if times <= drawings.len() {
            assert(drawings.take(drawings.len() - times + 1).drop_last() =~= drawings.take(
                drawings.len() - times,
            ));
        }
    }
}

/// Control with the key in the Z position undoes in every keyboard layout, and no key that is not
/// pressed together with control does.
pub proof fn law_undo_key_ignores_the_layout(key: Key, keycode: u32)
    ensures
        key_meaning(key, X11_KEYCODE_Z, true) == KeyAction::Redraw,
        key_meaning(key, keycode, false) != KeyAction::Redraw,
{
}

/// Whether every point of a drawing lies inside.
pub open spec fn within<P, F>(drawing: Drawing<P, F>, inside: spec_fn(P) -> bool) -> bool {
    match drawing {
        Drawing::Freehand { points, style: _ } => forall|i: int|
            0 <= i < points.len() ==> inside(#[trigger] points[i]),
        Drawing::Rectangle { start, end, style: _ } => inside(start) && inside(end),
    }
}

/// Whether every point of every drawing lies inside.
pub open spec fn all_within<P, F>(
    drawings: Seq<Drawing<P, F>>,
    inside: spec_fn(P) -> bool,
) -> bool {
    forall|i: int| 0 <= i < drawings.len() ==> within(#[trigger] drawings[i], inside)
}

/// Drawings keep to the points that are handed in: where these lie inside, and all points so far,
/// so do all points after a drag has begun, was followed or was undone.
pub proof fn law_points_stay_inside<P, F>(
    drawings: Seq<Drawing<P, F>>,
    inside: spec_fn(P) -> bool,
    tool: Tool,
    point: P,
    style: Brush<F>,
)
    requires
        all_within(drawings, inside),
        inside(point),
    ensures
        all_within(drawings.push(begun(tool, point, style)), inside),
        all_within(dragged(drawings, point), inside),
        all_within(undone(drawings), inside),
{
    if drawings.len() > 0 {
        assert(within(drawings[drawings.len() - 1], inside));
        assert(within(extended(drawings.last(), point), inside));
    }
}

/// What may happen to the drawings.
pub enum Change<P, F> {
    Begun { tool: Tool, point: P, style: Brush<F> },
    Dragged { point: P },
    Undone,
}

/// What an editor shows after these changes, having begun with nothing.
pub open spec fn drawn<P, F>(changes: Seq<Change<P, F>>) -> Seq<Drawing<P, F>>
    decreases changes.len(),
{
    if changes.len() == 0 {
        Seq::empty()
    } else {
        let before = drawn(changes.drop_last());
        match changes.last() {
            Change::Begun { tool, point, style } => before.push(begun(tool, point, style)),
            Change::Dragged { point } => dragged(before, point),
            Change::Undone => undone(before),
        }
    }
}

/// Whether the point that a change hands in lies inside, if it hands one in.
pub open spec fn hands_in<P, F>(change: Change<P, F>, inside: spec_fn(P) -> bool) -> bool {
    match change {
        Change::Begun { tool: _, point, style: _ } => inside(point),
        Change::Dragged { point } => inside(point),
        Change::Undone => true,
    }
}

/// At every moment every point of every drawing lies where the points that are handed in do,
/// wherever the pointer was dragged: on the preview, if they are taken from it.
pub proof fn law_points_are_inside_at_every_moment<P, F>(
    changes: Seq<Change<P, F>>,
    inside: spec_fn(P) -> bool,
)
    requires
        forall|i: int| 0 <= i < changes.len() ==> hands_in(#[trigger] changes[i], inside),
    ensures
        all_within(drawn(changes), inside),
    decreases changes.len(),
{
    if changes.len() > 0 {
        let earlier = changes.drop_last();
        assert forall|i: int| 0 <= i < earlier.len() implies hands_in(
            #[trigger] earlier[i],
            inside,
        ) by {
            assert(earlier[i] == changes[i]);
        }
        law_points_are_inside_at_every_moment(earlier, inside);
        assert(hands_in(changes[changes.len() - 1], inside));
        match changes.last() {
            Change::Begun { tool, point, style } => {
                law_points_stay_inside(drawn(earlier), inside, tool, point, style);
            },
            Change::Dragged { point } => {
                let before = drawn(earlier);
                if before.len() > 0 {
                    assert(within(before[before.len() - 1], inside));
                    assert(within(extended(before.last(), point), inside));
                }
            },
            Change::Undone => {},
        }
    }
}

/// The keys mean the same with any modifier and in any layout: unless it is control with the key in
/// the Z position, Return saves, Escape closes, and any other key is left to others.
pub proof fn law_keys_ignore_modifiers(key: Key, keycode: u32, control: bool)
    ensures
        control && keycode == 52 ==> key_meaning(key, keycode, control) == KeyAction::Redraw,
        !control || keycode != 52 ==> {
            &&& key_meaning(Key::Return, keycode, control) == KeyAction::Save
            &&& key_meaning(Key::Escape, keycode, control) == KeyAction::Close
            &&& key_meaning(Key::Other, keycode, control) == KeyAction::Proceed
        },
{
}

/// The model of an annotation has its points, its corners and its brush; there is one for each
/// annotation, in their order.
pub proof fn law_models_keep_every_point<P, F>(annotations: Seq<Annotation<P, F>>)
    ensures
        models(annotations).len() == annotations.len(),
        forall|i: int|
            0 <= i < annotations.len() ==> match (annotations[i], #[trigger] models(
                annotations,
            )[i]) {
                (
                    Annotation::Freehand { points, style },
                    Drawing::Freehand { points: points2, style: style2 },
                ) => points2 == points@ && style2 == style,
                (
                    Annotation::Rectangle { start, end, style },
                    Drawing::Rectangle { start: start2, end: end2, style: style2 },
                ) => start2 == start && end2 == end && style2 == style,
                _ => false,
            },
{
}

/// A drag begins where the pointer is, in the brush as it is: with the pen as a line of that one
/// point, with the rectangle tool as a rectangle with both corners there.
pub proof fn law_drag_begins_at_the_pointer<P, F>(tool: Tool, point: P, style: Brush<F>)
    ensures
        match begun(tool, point, style) {
            Drawing::Freehand { points, style: brush } => {
                &&& tool == Tool::Pen
                &&& points.len() == 1
                &&& points[0] == point
                &&& brush == style
            },
            Drawing::Rectangle { start, end, style: brush } => {
                &&& tool == Tool::Rectangle
                &&& start == point
                &&& end == point
                &&& brush == style
            },
        },
{
}

/// Following the pointer changes the last drawing and no other, and keeps its brush: a line keeps
/// all its points and gains the new one at its end, a rectangle keeps the corner where it began and
/// has the new point as the other. Without a drawing nothing changes.
pub proof fn law_drag_follows_the_pointer<P, F>(drawings: Seq<Drawing<P, F>>, point: P)
    ensures
        dragged(drawings, point).len() == drawings.len(),
        forall|i: int|
            0 <= i < drawings.len() - 1 ==> #[trigger] dragged(drawings, point)[i] == drawings[i],
        drawings.len() > 0 ==> match (drawings.last(), dragged(drawings, point).last()) {
            (
                Drawing::Freehand { points, style },
                Drawing::Freehand { points: points2, style: style2 },
            ) => {
                &&& style2 == style
                &&& points2.len() == points.len() + 1
                &&& points2.last() == point
                &&& forall|i: int| 0 <= i < points.len() ==> #[trigger] points2[i] == points[i]
            },
            (
                Drawing::Rectangle { start, end: _, style },
                Drawing::Rectangle { start: start2, end: end2, style: style2 },
            ) => style2 == style && start2 == start && end2 == point,
            _ => false,
        },
{
}

/// Undo removes the last drawing, if there is one, and leaves those before it as they are.
pub proof fn law_undo_removes_only_the_last<P, F>(drawings: Seq<Drawing<P, F>>)
    ensures
        drawings.len() == 0 ==> undone(drawings).len() == 0,
        drawings.len() > 0 ==> undone(drawings).len() == drawings.len() - 1,
        forall|i: int|
            0 <= i < drawings.len() - 1 ==> #[trigger] undone(drawings)[i] == drawings[i],
{
}

/// A brush takes the thickness and the colour that are chosen, each without touching the other, and
/// the last choice counts.
pub proof fn law_thickness_and_colour_are_apart<F>(
    brush: Brush<F>,
    width: F,
    width2: F,
    red: F,
    green: F,
    blue: F,
)
    ensures
        thickened(brush, width).width == width,
        thickened(brush, width).red == brush.red,
        thickened(brush, width).green == brush.green,
        thickened(brush, width).blue == brush.blue,
        recolored(brush, red, green, blue).red == red,
        recolored(brush, red, green, blue).green == green,
        recolored(brush, red, green, blue).blue == blue,
        recolored(brush, red, green, blue).width == brush.width,
        thickened(thickened(brush, width2), width) == thickened(brush, width),
        thickened(recolored(brush, red, green, blue), width) == recolored(
            thickened(brush, width),
            red,
            green,
            blue,
        ),
{
}

} // verus!
