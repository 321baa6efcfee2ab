//! The layer that owns the widgets and turns pointer samples into events.

use vstd::prelude::*;
use crate::event_stream::{new_sink, send_event, sink_stream, stream_of};
use crate::events::{
    hit_ids_among, hover_events, hover_events_among, hover_flags, hover_transition, paired_len,
    press_events, release_events,
};
use crate::widgets::{
    rect_corners, rect_into_points, Button, GetMesh, IntersectsPoint, Point2, WidgetEvent,
    WidgetId,
};

verus! {

const AVERAGE_WIDGET_AMOUNT: usize = 8;

/// The widgets of one overlay, the hover flags of the last two motion
/// samples, and the sink that the layer's events go out through.
///
/// A widget's id is its index in `button_widgets`. The collection is meant to
/// grow only: an id means another widget once the collection is reordered or
/// shrunk.
pub struct UiLayer {
    /// The widgets, in collection order.
    pub button_widgets: Vec<Button>,
    /// Where the layer's events go out.
    pub event_sink: frappe::Sink<WidgetEvent>,
    /// The hover flags of the last motion sample, one for each widget that
    /// the layer held then.
    pub new_hover_state: Vec<bool>,
    /// The hover flags of the motion sample before the last.
    pub previous_hover_state: Vec<bool>,
}

/// One polygon for each widget, in collection order: the corners of its
/// bounds.
pub open spec fn draw_polygons(widgets: Seq<Button>) -> Seq<Seq<Point2>> {
    Seq::new(widgets.len(), |i: int| rect_corners(widgets[i]@))
}

/// The corners of each polygon of a mesh.
pub open spec fn polygons_of(mesh: Seq<[Point2; 4]>) -> Seq<Seq<Point2>> {
    mesh.map_values(|polygon: [Point2; 4]| polygon@)
}

/// Two meshes derived from the same widgets are the same mesh: drawing again
/// without touching the widgets gives what the last frame gave, whatever
/// pointer samples the layer took in between.
pub proof fn lemma_redraw_is_idempotent(
    widgets: Seq<Button>,
    first: Seq<[Point2; 4]>,
    second: Seq<[Point2; 4]>,
)
    requires
        polygons_of(first) == draw_polygons(widgets),
        polygons_of(second) == draw_polygons(widgets),
    ensures
        first == second,
{
    assert(first.len() == polygons_of(first).len());
    assert(second.len() == polygons_of(second).len());
    assert forall|i: int| 0 <= i < first.len() implies first[i] == second[i] by {
        assert(polygons_of(first)[i] == first[i]@);
        assert(polygons_of(second)[i] == second[i]@);
        assert(first[i] =~= second[i]);
    }
    assert(first =~= second);
}

impl Default for UiLayer {
    /// A layer without widgets that has seen no motion sample.
    fn default() -> (layer: UiLayer)
        ensures
            layer.button_widgets@ == Seq::<Button>::empty(),
            layer.new_hover_state@ == Seq::<bool>::empty(),
            layer.previous_hover_state@ == Seq::<bool>::empty(),
    {
        UiLayer {
            button_widgets: Vec::with_capacity(AVERAGE_WIDGET_AMOUNT),
            event_sink: new_sink(),
            new_hover_state: Vec::with_capacity(AVERAGE_WIDGET_AMOUNT),
            previous_hover_state: Vec::with_capacity(AVERAGE_WIDGET_AMOUNT),
        }
    }
}

impl UiLayer {
    /// The geometry to draw for the current frame: for each widget, in
    /// collection order, the four corners of its bounds. Derived anew on
    /// every call, from the widgets alone.
    pub fn build_draw_mesh(&self) -> (mesh: Vec<[Point2; 4]>)
        ensures
            polygons_of(mesh@) == draw_polygons(self.button_widgets@),
    {
        let mut mesh: Vec<[Point2; 4]> = Vec::new();
        let mut i: usize = 0;
        while i < self.button_widgets.len()
            invariant
                i <= self.button_widgets.len(),
                mesh@.len() == i,
                forall|j: int|
                    0 <= j < i ==> (#[trigger] mesh@[j])@ == rect_corners(self.button_widgets@[j]@),
            decreases self.button_widgets.len() - i,
        {
            let polygon = rect_into_points(self.button_widgets[i].get_mesh());
            mesh.push(polygon);
            i += 1;
        }
        mesh
    }

    /// Takes a motion sample at `(x, y)`.
    ///
    /// The flags of the last sample become the previous ones, the new flags
    /// say for each widget whether it contains `(x, y)`, and every widget that
    /// has a flag in both emits its transition, by ascending id. The events
    /// are sent to the layer's sink and returned in the order they were sent.
    /// The widgets and the sink stay as they were.
    pub fn update_mouse_position_and_emit_events(&mut self, x: i32, y: i32) -> (events: Vec<
        WidgetEvent,
    >)
        ensures
            final(self).button_widgets@ == old(self).button_widgets@,
            final(self).event_sink == old(self).event_sink,
            final(self).previous_hover_state@ == old(self).new_hover_state@,
            final(self).new_hover_state@ == hover_flags(
                old(self).button_widgets@,
                x as int,
                y as int,
            ),
            events@ == hover_events(old(self).new_hover_state@, final(self).new_hover_state@),
    {
        self.previous_hover_state.clear();
        self.previous_hover_state.append(&mut self.new_hover_state);

        let mut i: usize = 0;
        while i < self.button_widgets.len()
            invariant
                i <= self.button_widgets.len(),
                self.button_widgets@ == old(self).button_widgets@,
                self.event_sink == old(self).event_sink,
                self.previous_hover_state@ == old(self).new_hover_state@,
                self.new_hover_state@ == hover_flags(self.button_widgets@, x as int, y as int).take(
                    i as int,
                ),
            decreases self.button_widgets.len() - i,
        {
            let hit = self.button_widgets[i].intersects_point(x, y);
            self.new_hover_state.push(hit);
            i += 1;
        }

        let paired = if self.previous_hover_state.len() <= self.new_hover_state.len() {
            self.previous_hover_state.len()
        } else {
            self.new_hover_state.len()
        };
        let mut events: Vec<WidgetEvent> = Vec::new();
        let mut widget_id: usize = 0;
        while widget_id < paired
            invariant
                widget_id <= paired,
                self.event_sink == old(self).event_sink,
                paired == paired_len(self.previous_hover_state@, self.new_hover_state@),
                events@ == hover_events_among(
                    self.previous_hover_state@,
                    self.new_hover_state@,
                    widget_id as nat,
                ),
            decreases paired - widget_id,
        {
            self.check_hover_state_change_and_emit_events(
                widget_id,
                self.previous_hover_state[widget_id],
                self.new_hover_state[widget_id],
                &mut events,
            );
            widget_id += 1;
        }
        events
    }

    /// Takes a button-down sample at `(x, y)`: every widget that contains the
    /// point is pressed, overlapping ones too, by ascending id. The events are
    /// sent to the layer's sink and returned in the order they were sent.
    pub fn check_press_and_emit_events(&self, x: i32, y: i32) -> (events: Vec<WidgetEvent>)
        ensures
            events@ == press_events(hover_flags(self.button_widgets@, x as int, y as int)),
    {
        let ghost hits = hover_flags(self.button_widgets@, x as int, y as int);
        let mut events: Vec<WidgetEvent> = Vec::new();
        let mut index: usize = 0;
        while index < self.button_widgets.len()
            invariant
                index <= self.button_widgets.len(),
                hits == hover_flags(self.button_widgets@, x as int, y as int),
                events@ == hit_ids_among(hits, index as nat).map_values(
                    |id: WidgetId| WidgetEvent::Press(id),
                ),
            decreases self.button_widgets.len() - index,
        {
            if self.button_widgets[index].intersects_point(x, y) {
                self.emit(WidgetEvent::Press(index), &mut events);
            }
            index += 1;
        }
        events
    }

    /// Takes a button-up sample at `(x, y)`: every widget that contains the
    /// point is released, overlapping ones too, by ascending id. The events
    /// are sent to the layer's sink and returned in the order they were sent.
    pub fn check_release_and_emit_events(&self, x: i32, y: i32) -> (events: Vec<WidgetEvent>)
        ensures
            events@ == release_events(hover_flags(self.button_widgets@, x as int, y as int)),
    {
        let ghost hits = hover_flags(self.button_widgets@, x as int, y as int);
        let mut events: Vec<WidgetEvent> = Vec::new();
        let mut index: usize = 0;
        while index < self.button_widgets.len()
            invariant
                index <= self.button_widgets.len(),
                hits == hover_flags(self.button_widgets@, x as int, y as int),
                events@ == hit_ids_among(hits, index as nat).map_values(
                    |id: WidgetId| WidgetEvent::Release(id),
                ),
            decreases self.button_widgets.len() - index,
        {
            if self.button_widgets[index].intersects_point(x, y) {
                self.emit(WidgetEvent::Release(index), &mut events);
            }
            index += 1;
        }
        events
    }

    /// The stream of the layer's own sink: it carries the events that the
    /// layer sends from now on. What was sent before is not replayed.
    pub fn get_stream(&self) -> (stream: frappe::Stream<WidgetEvent>)
        ensures
            stream == sink_stream(self.event_sink),
    {
        stream_of(&self.event_sink)
    }

    /// Sends the hover transition of one widget, if there is one, and
    /// records it in `sent`.
    fn check_hover_state_change_and_emit_events(
        &self,
        widget_id: WidgetId,
        prev_state: bool,
        new_state: bool,
        sent: &mut Vec<WidgetEvent>,
    )
        ensures
            final(sent)@ == match hover_transition(widget_id, prev_state, new_state) {
                Some(event) => old(sent)@.push(event),
                None => old(sent)@,
            },
    {
        match (prev_state, new_state) {
            (false, true) => self.emit(WidgetEvent::Enter(widget_id), sent),
            (true, false) => self.emit(WidgetEvent::Leave(widget_id), sent),
            _ => (),
        }
    }

    /// Sends `event` to the sink and records it in `sent`: the one place
    /// where the layer's events leave it.
    fn emit(&self, event: WidgetEvent, sent: &mut Vec<WidgetEvent>)
        ensures
            final(sent)@ == old(sent)@.push(event),
    {
        send_event(&self.event_sink, event);
        sent.push(event);
    }
}

} // verus!
