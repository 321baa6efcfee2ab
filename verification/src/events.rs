//! Which events a pointer sample gives rise to.
//!
//! Everything here is mathematics over sequences: the layer's handlers are
//! specified by these functions, and what is proved of them here holds of
//! every layer.

use vstd::prelude::*;
use crate::widgets::{Button, IntersectsPoint, WidgetEvent, WidgetId};

verus! {

/// For each widget, in collection order, whether its bounds contain `(x, y)`.
pub open spec fn hover_flags(widgets: Seq<Button>, x: int, y: int) -> Seq<bool> {
    Seq::new(widgets.len(), |i: int| widgets[i].contains_point(x, y))
}

/// What one widget emits when its hover flag goes from `previous` to
/// `current`: `Enter` when the pointer came onto it, `Leave` when the pointer
/// went off it, nothing when the flag did not change.
pub open spec fn hover_transition(id: WidgetId, previous: bool, current: bool) -> Option<
    WidgetEvent,
> {
    if !previous && current {
        Some(WidgetEvent::Enter(id))
    } else if previous && !current {
        Some(WidgetEvent::Leave(id))
    } else {
        None
    }
}

/// The hover events of the widgets `0..n`, by ascending id.
pub open spec fn hover_events_among(previous: Seq<bool>, current: Seq<bool>, n: nat) -> Seq<
    WidgetEvent,
>
    decreases n,
{
    if n == 0 {
        Seq::empty()
    } else {
        let earlier = hover_events_among(previous, current, (n - 1) as nat);
        match hover_transition((n - 1) as usize, previous[n - 1], current[n - 1]) {
            Some(event) => earlier.push(event),
            None => earlier,
        }
    }
}

/// How many widgets have a flag in both `previous` and `current`.
pub open spec fn paired_len(previous: Seq<bool>, current: Seq<bool>) -> nat {
    if previous.len() <= current.len() {
        previous.len()
    } else {
        current.len()
    }
}

/// The events of a motion sample that takes the hover flags from `previous`
/// to `current`: the transition of every widget that has a flag in both, by
/// ascending id. A widget with a flag in only one of the two emits nothing.
pub open spec fn hover_events(previous: Seq<bool>, current: Seq<bool>) -> Seq<WidgetEvent> {
    hover_events_among(previous, current, paired_len(previous, current))
}

/// The events of a motion sample at `to` by a layer over `widgets` whose last
/// sample was at `from`.
pub open spec fn motion_events(widgets: Seq<Button>, from: (int, int), to: (int, int)) -> Seq<
    WidgetEvent,
> {
    hover_events(hover_flags(widgets, from.0, from.1), hover_flags(widgets, to.0, to.1))
}

/// The events of a layer over `widgets` that, settled at the first place of
/// `path`, takes a motion sample at each of the following places in turn.
pub open spec fn path_events(widgets: Seq<Button>, path: Seq<(int, int)>) -> Seq<WidgetEvent>
    decreases path.len(),
{
    if path.len() < 2 {
        Seq::empty()
    } else {
        path_events(widgets, path.drop_last()) + motion_events(
            widgets,
            path[path.len() - 2],
            path[path.len() - 1],
        )
    }
}

/// The ids among `0..n` whose flag is set, ascending.
pub open spec fn hit_ids_among(hits: Seq<bool>, n: nat) -> Seq<WidgetId>
    decreases n,
{
    if n == 0 {
        Seq::empty()
    } else if hits[n - 1] {
        hit_ids_among(hits, (n - 1) as nat).push((n - 1) as usize)
    } else {
        hit_ids_among(hits, (n - 1) as nat)
    }
}

/// The ids of the widgets whose flag is set, ascending.
pub open spec fn hit_ids(hits: Seq<bool>) -> Seq<WidgetId> {
    hit_ids_among(hits, hits.len())
}

/// One `Press` for every widget hit, by ascending id.
pub open spec fn press_events(hits: Seq<bool>) -> Seq<WidgetEvent> {
    hit_ids(hits).map_values(|id: WidgetId| WidgetEvent::Press(id))
}

/// One `Release` for every widget hit, by ascending id.
pub open spec fn release_events(hits: Seq<bool>) -> Seq<WidgetEvent> {
    hit_ids(hits).map_values(|id: WidgetId| WidgetEvent::Release(id))
}

/// Whether an event is about the widget `id`.
pub open spec fn is_about(id: WidgetId) -> spec_fn(WidgetEvent) -> bool {
    |event: WidgetEvent| event.widget_id() == id
}

/// The events of `events` that are about the widget `id`, in their order.
pub open spec fn events_about(events: Seq<WidgetEvent>, id: WidgetId) -> Seq<WidgetEvent> {
    events.filter(is_about(id))
}

/// What one widget emits in a hover step, as a sequence of at most one event.
pub open spec fn transition_events(id: WidgetId, previous: bool, current: bool) -> Seq<
    WidgetEvent,
> {
    match hover_transition(id, previous, current) {
        Some(event) => seq![event],
        None => Seq::empty(),
    }
}

proof fn lemma_hover_events_among_ids(previous: Seq<bool>, current: Seq<bool>, n: nat)
    requires
        n <= usize::MAX,
    ensures
        forall|j: int|
            0 <= j < hover_events_among(previous, current, n).len() ==> (
            #[trigger] hover_events_among(previous, current, n)[j]).widget_id() < n,
        forall|j: int, k: int|
            0 <= j < k < hover_events_among(previous, current, n).len() ==> (
            #[trigger] hover_events_among(previous, current, n)[j]).widget_id() < (
            #[trigger] hover_events_among(previous, current, n)[k]).widget_id(),
    decreases n,
{
    if n > 0 {
        let earlier = hover_events_among(previous, current, (n - 1) as nat);
        let all = hover_events_among(previous, current, n);
        lemma_hover_events_among_ids(previous, current, (n - 1) as nat);
        assert forall|j: int| 0 <= j < all.len() implies (#[trigger] all[j]).widget_id() < n by {
            if j < earlier.len() {
                assert(all[j] == earlier[j]);
            }
        }
        assert forall|j: int, k: int| 0 <= j < k < all.len() implies (#[trigger] all[j]).widget_id()
            < (#[trigger] all[k]).widget_id() by {
            assert(all[j] == earlier[j]);
            if k < earlier.len() {
                assert(all[k] == earlier[k]);
            }
        }
    }
}

proof fn lemma_hover_events_among_contains(
    previous: Seq<bool>,
    current: Seq<bool>,
    n: nat,
    event: WidgetEvent,
)
    requires
        n <= usize::MAX,
    ensures
        hover_events_among(previous, current, n).contains(event) <==> event.widget_id() < n
            && hover_transition(
            event.widget_id(),
            previous[event.widget_id() as int],
            current[event.widget_id() as int],
        ) == Some(event),
    decreases n,
{
    if n > 0 {
        let earlier = hover_events_among(previous, current, (n - 1) as nat);
        let all = hover_events_among(previous, current, n);
        lemma_hover_events_among_contains(previous, current, (n - 1) as nat, event);
        match hover_transition((n - 1) as usize, previous[n - 1], current[n - 1]) {
            Some(last) => {
                assert(all == earlier.push(last));
                assert(all.last() == last);
                assert(all.drop_last() == earlier);
                if all.contains(event) {
                    let j = choose|j: int| 0 <= j < all.len() && all[j] == event;
                    if j < earlier.len() {
                        assert(earlier[j] == event);
                    }
                }
                if earlier.contains(event) {
                    let j = choose|j: int| 0 <= j < earlier.len() && earlier[j] == event;
                    assert(all[j] == event);
                }
            },
            None => {},
        }
    }
}

proof fn lemma_events_about_among(previous: Seq<bool>, current: Seq<bool>, n: nat, id: WidgetId)
    requires
        n <= usize::MAX,
    ensures
        events_about(hover_events_among(previous, current, n), id) == if id < n {
            transition_events(id, previous[id as int], current[id as int])
        } else {
            Seq::empty()
        },
    decreases n,
{
    reveal(Seq::filter);
    if n > 0 {
        let earlier = hover_events_among(previous, current, (n - 1) as nat);
        lemma_events_about_among(previous, current, (n - 1) as nat, id);
        match hover_transition((n - 1) as usize, previous[n - 1], current[n - 1]) {
            Some(last) => {
                earlier.lemma_filter_push(last, is_about(id));
                if id == n - 1 {
                    assert(Seq::<WidgetEvent>::empty().push(last) =~= seq![last]);
                }
            },
            None => {},
        }
    }
}

proof fn lemma_hit_ids_among(hits: Seq<bool>, n: nat)
    requires
        n <= usize::MAX,
    ensures
        forall|j: int|
            0 <= j < hit_ids_among(hits, n).len() ==> #[trigger] hit_ids_among(hits, n)[j] < n,
        forall|j: int, k: int|
            0 <= j < k < hit_ids_among(hits, n).len() ==> #[trigger] hit_ids_among(hits, n)[j]
                < #[trigger] hit_ids_among(hits, n)[k],
        forall|id: WidgetId| #[trigger]
            hit_ids_among(hits, n).contains(id) <==> id < n && hits[id as int],
    decreases n,
{
    if n > 0 {
        let earlier = hit_ids_among(hits, (n - 1) as nat);
        let all = hit_ids_among(hits, n);
        lemma_hit_ids_among(hits, (n - 1) as nat);
        assert forall|id: WidgetId| #[trigger] all.contains(id) <==> id < n && hits[id as int] by {
            if hits[n - 1] {
                assert(all == earlier.push((n - 1) as usize));
                assert(all.last() == (n - 1) as usize);
                if all.contains(id) {
                    let j = choose|j: int| 0 <= j < all.len() && all[j] == id;
                    if j < earlier.len() {
                        assert(earlier[j] == id);
                    }
                }
                if earlier.contains(id) {
                    let j = choose|j: int| 0 <= j < earlier.len() && earlier[j] == id;
                    assert(all[j] == id);
                }
            }
        }
    }
}

/// The events of a hover step come by strictly ascending widget id: no
/// widget emits twice, and a lower id is heard before a higher one.
pub proof fn lemma_hover_events_ascend(previous: Seq<bool>, current: Seq<bool>)
    requires
        paired_len(previous, current) <= usize::MAX,
    ensures
        forall|j: int, k: int|
            0 <= j < k < hover_events(previous, current).len() ==> (#[trigger] hover_events(
                previous,
                current,
            )[j]).widget_id() < (#[trigger] hover_events(previous, current)[k]).widget_id(),
{
    lemma_hover_events_among_ids(previous, current, paired_len(previous, current));
}

/// An event occurs in a hover step exactly when it is the transition of its
/// own widget, and that widget has a flag before and after the step. So a
/// step holds no `Press` and no `Release`, an `Enter` for each widget whose
/// flag rose, and a `Leave` for each widget whose flag fell.
pub proof fn lemma_hover_events_contain(
    previous: Seq<bool>,
    current: Seq<bool>,
    event: WidgetEvent,
)
    requires
        paired_len(previous, current) <= usize::MAX,
    ensures
        hover_events(previous, current).contains(event) <==> event.widget_id() < paired_len(
            previous,
            current,
        ) && hover_transition(
            event.widget_id(),
            previous[event.widget_id() as int],
            current[event.widget_id() as int],
        ) == Some(event),
{
    lemma_hover_events_among_contains(previous, current, paired_len(previous, current), event);
}

/// Of the events of a hover step, those about one widget are that widget's
/// own transition and nothing else. A widget without a flag on both sides of
/// the step, such as one added since the last sample, emits nothing.
pub proof fn lemma_hover_events_about(previous: Seq<bool>, current: Seq<bool>, id: WidgetId)
    requires
        paired_len(previous, current) <= usize::MAX,
    ensures
        events_about(hover_events(previous, current), id) == if id < paired_len(
            previous,
            current,
        ) {
            transition_events(id, previous[id as int], current[id as int])
        } else {
            Seq::empty()
        },
{
    lemma_events_about_among(previous, current, paired_len(previous, current), id);
}

/// The ids hit come in strictly ascending order, and an id is among them
/// exactly when its flag is set.
pub proof fn lemma_hit_ids(hits: Seq<bool>)
    requires
        hits.len() <= usize::MAX,
    ensures
        forall|j: int, k: int|
            0 <= j < k < hit_ids(hits).len() ==> #[trigger] hit_ids(hits)[j] < #[trigger] hit_ids(
                hits,
            )[k],
        forall|id: WidgetId| #[trigger]
            hit_ids(hits).contains(id) <==> id < hits.len() && hits[id as int],
{
    lemma_hit_ids_among(hits, hits.len());
}

/// The presses of a button-down sample are `Press` events only, they come by
/// strictly ascending widget id, and there is one for each widget hit and
/// none for any other.
pub proof fn lemma_press_events(hits: Seq<bool>)
    requires
        hits.len() <= usize::MAX,
    ensures
        forall|j: int| 0 <= j < press_events(hits).len() ==> #[trigger] press_events(hits)[j] is Press,
        forall|j: int, k: int|
            0 <= j < k < press_events(hits).len() ==> (#[trigger] press_events(hits)[j]).widget_id()
                < (#[trigger] press_events(hits)[k]).widget_id(),
        forall|id: WidgetId| #[trigger]
            press_events(hits).contains(WidgetEvent::Press(id)) <==> id < hits.len()
                && hits[id as int],
{
    lemma_hit_ids(hits);
    let ids = hit_ids(hits);
    let events = press_events(hits);
    assert forall|j: int, k: int| 0 <= j < k < events.len() implies (
    #[trigger] events[j]).widget_id() < (#[trigger] events[k]).widget_id() by {
        assert(ids[j] < ids[k]);
    }
    assert forall|id: WidgetId| #[trigger]
        events.contains(WidgetEvent::Press(id)) <==> id < hits.len() && hits[id as int] by {
        if events.contains(WidgetEvent::Press(id)) {
            let j = choose|j: int| 0 <= j < events.len() && events[j] == WidgetEvent::Press(id);
            assert(ids[j] == id);
            assert(ids.contains(id));
        }
        if ids.contains(id) {
            let j = choose|j: int| 0 <= j < ids.len() && ids[j] == id;
            assert(events[j] == WidgetEvent::Press(id));
        }
    }
}

/// The releases of a button-up sample are `Release` events only, they come by
/// strictly ascending widget id, and there is one for each widget hit and
/// none for any other.
pub proof fn lemma_release_events(hits: Seq<bool>)
    requires
        hits.len() <= usize::MAX,
    ensures
        forall|j: int| 0 <= j < release_events(hits).len() ==> #[trigger] release_events(hits)[j] is Release,
        forall|j: int, k: int|
            0 <= j < k < release_events(hits).len() ==> (#[trigger] release_events(hits)[j]).widget_id()
                < (#[trigger] release_events(hits)[k]).widget_id(),
        forall|id: WidgetId| #[trigger]
            release_events(hits).contains(WidgetEvent::Release(id)) <==> id < hits.len()
                && hits[id as int],
{
    lemma_hit_ids(hits);
    let ids = hit_ids(hits);
    let events = release_events(hits);
    assert forall|j: int, k: int| 0 <= j < k < events.len() implies (
    #[trigger] events[j]).widget_id() < (#[trigger] events[k]).widget_id() by {
        assert(ids[j] < ids[k]);
    }
    assert forall|id: WidgetId| #[trigger]
        events.contains(WidgetEvent::Release(id)) <==> id < hits.len() && hits[id as int] by {
        if events.contains(WidgetEvent::Release(id)) {
            let j = choose|j: int| 0 <= j < events.len() && events[j] == WidgetEvent::Release(id);
            assert(ids[j] == id);
            assert(ids.contains(id));
        }
        if ids.contains(id) {
            let j = choose|j: int| 0 <= j < ids.len() && ids[j] == id;
            assert(events[j] == WidgetEvent::Release(id));
        }
    }
}

/// A hover step that changes no flag emits nothing.
pub proof fn lemma_unchanged_flags_are_silent(flags: Seq<bool>)
    ensures
        hover_events(flags, flags) == Seq::<WidgetEvent>::empty(),
{
    lemma_unchanged_flags_among(flags, flags.len());
}

proof fn lemma_unchanged_flags_among(flags: Seq<bool>, n: nat)
    ensures
        hover_events_among(flags, flags, n) == Seq::<WidgetEvent>::empty(),
    decreases n,
{
    if n > 0 {
        lemma_unchanged_flags_among(flags, (n - 1) as nat);
    }
}

/// A motion sample at the place of the last one emits nothing: once the
/// layer has settled on a position, repeating it is silent.
pub proof fn lemma_repeated_sample_is_silent(widgets: Seq<Button>, at: (int, int))
    ensures
        motion_events(widgets, at, at) == Seq::<WidgetEvent>::empty(),
{
    lemma_unchanged_flags_are_silent(hover_flags(widgets, at.0, at.1));
}

/// A widget hears exactly one `Enter` when the pointer comes onto it, nothing
/// while the pointer rests or moves within it, and exactly one `Leave` when
/// the pointer goes off it again.
pub proof fn lemma_enter_leave_pairing(
    widgets: Seq<Button>,
    id: WidgetId,
    outside: (int, int),
    inside: (int, int),
    within: (int, int),
    beyond: (int, int),
)
    requires
        id < widgets.len() <= usize::MAX,
        !widgets[id as int].contains_point(outside.0, outside.1),
        widgets[id as int].contains_point(inside.0, inside.1),
        widgets[id as int].contains_point(within.0, within.1),
        !widgets[id as int].contains_point(beyond.0, beyond.1),
    ensures
        events_about(motion_events(widgets, outside, inside), id) == seq![WidgetEvent::Enter(id)],
        events_about(motion_events(widgets, inside, inside), id) == Seq::<WidgetEvent>::empty(),
        events_about(motion_events(widgets, inside, within), id) == Seq::<WidgetEvent>::empty(),
        events_about(motion_events(widgets, within, beyond), id) == seq![WidgetEvent::Leave(id)],
{
    let at_outside = hover_flags(widgets, outside.0, outside.1);
    let at_inside = hover_flags(widgets, inside.0, inside.1);
    let at_within = hover_flags(widgets, within.0, within.1);
    let at_beyond = hover_flags(widgets, beyond.0, beyond.1);
    lemma_hover_events_about(at_outside, at_inside, id);
    lemma_hover_events_about(at_inside, at_inside, id);
    lemma_hover_events_about(at_inside, at_within, id);
    lemma_hover_events_about(at_within, at_beyond, id);
}

/// Along any path of the pointer, what one widget hears is `Enter` and
/// `Leave` in turn: never two of a kind in a row. It begins with `Enter` when
/// the path starts off the widget and with `Leave` when it starts on it, it
/// ends with `Enter` when the path ends on the widget and with `Leave` when
/// it ends off it, and the widget hears nothing at all only if the path ends
/// as it began.
pub proof fn lemma_enter_and_leave_alternate(
    widgets: Seq<Button>,
    id: WidgetId,
    path: Seq<(int, int)>,
)
    requires
        id < widgets.len() <= usize::MAX,
        path.len() > 0,
    ensures
        ({
            let heard = events_about(path_events(widgets, path), id);
            let on_at_start = widgets[id as int].contains_point(path.first().0, path.first().1);
            let on_at_end = widgets[id as int].contains_point(path.last().0, path.last().1);
            &&& forall|j: int|
                0 <= j < heard.len() ==> #[trigger] heard[j] == WidgetEvent::Enter(id) || heard[j]
                    == WidgetEvent::Leave(id)
            &&& forall|j: int| 0 < j < heard.len() ==> #[trigger] heard[j] != heard[j - 1]
            &&& heard.len() > 0 ==> (heard.first() == WidgetEvent::Enter(id) <==> !on_at_start)
            &&& heard.len() > 0 ==> (heard.last() == WidgetEvent::Enter(id) <==> on_at_end)
            &&& heard.len() == 0 ==> (on_at_start <==> on_at_end)
        }),
    decreases path.len(),
{
    let heard = events_about(path_events(widgets, path), id);
    if path.len() == 1 {
        Seq::<WidgetEvent>::empty().lemma_filter_len(is_about(id));
    } else {
        let earlier = path.drop_last();
        let from = path[path.len() - 2];
        let to = path[path.len() - 1];
        let step = motion_events(widgets, from, to);
        let heard_earlier = events_about(path_events(widgets, earlier), id);
        lemma_enter_and_leave_alternate(widgets, id, earlier);
        Seq::filter_distributes_over_add(path_events(widgets, earlier), step, is_about(id));
        lemma_hover_events_about(
            hover_flags(widgets, from.0, from.1),
            hover_flags(widgets, to.0, to.1),
            id,
        );
        assert(earlier.first() == path.first());
        assert(earlier.last() == from);
        assert(heard == heard_earlier + events_about(step, id));
        match hover_transition(
            id,
            widgets[id as int].contains_point(from.0, from.1),
            widgets[id as int].contains_point(to.0, to.1),
        ) {
            Some(event) => {
                assert(heard == heard_earlier.push(event));
                assert forall|j: int| 0 < j < heard.len() implies #[trigger] heard[j] != heard[j
                    - 1] by {
                    if j < heard_earlier.len() {
                        assert(heard[j] == heard_earlier[j]);
                        assert(heard[j - 1] == heard_earlier[j - 1]);
                    } else {
                        assert(heard[j - 1] == heard_earlier.last());
                    }
                }
                assert forall|j: int| 0 <= j < heard.len() implies #[trigger] heard[j]
                    == WidgetEvent::Enter(id) || heard[j] == WidgetEvent::Leave(id) by {
                    if j < heard_earlier.len() {
                        assert(heard[j] == heard_earlier[j]);
                    }
                }
                if heard_earlier.len() > 0 {
                    assert(heard.first() == heard_earlier.first());
                }
            },
            None => {
                assert(heard == heard_earlier);
            },
        }
    }
}

/// When one motion sample takes the pointer off the widget `left` and onto
/// the widget `entered`, both hear of it in that sample, the lower id first.
pub proof fn lemma_leave_and_enter_in_one_sample(
    widgets: Seq<Button>,
    left: WidgetId,
    entered: WidgetId,
    from: (int, int),
    to: (int, int),
)
    requires
        widgets.len() <= usize::MAX,
        left < widgets.len(),
        entered < widgets.len(),
        widgets[left as int].contains_point(from.0, from.1),
        !widgets[left as int].contains_point(to.0, to.1),
        !widgets[entered as int].contains_point(from.0, from.1),
        widgets[entered as int].contains_point(to.0, to.1),
    ensures
        exists|j: int, k: int|
            {
                &&& 0 <= j < motion_events(widgets, from, to).len()
                &&& 0 <= k < motion_events(widgets, from, to).len()
                &&& #[trigger] motion_events(widgets, from, to)[j] == WidgetEvent::Leave(left)
                &&& #[trigger] motion_events(widgets, from, to)[k] == WidgetEvent::Enter(entered)
                &&& (j < k <==> left < entered)
            },
{
    let previous = hover_flags(widgets, from.0, from.1);
    let current = hover_flags(widgets, to.0, to.1);
    let events = motion_events(widgets, from, to);
    lemma_hover_events_contain(previous, current, WidgetEvent::Leave(left));
    lemma_hover_events_contain(previous, current, WidgetEvent::Enter(entered));
    lemma_hover_events_ascend(previous, current);
    let j = choose|j: int| 0 <= j < events.len() && events[j] == WidgetEvent::Leave(left);
    let k = choose|k: int| 0 <= k < events.len() && events[k] == WidgetEvent::Enter(entered);
    assert(events[j].widget_id() == left);
    assert(events[k].widget_id() == entered);
    if j < k {
        assert(events[j].widget_id() < events[k].widget_id());
    } else if k < j {
        assert(events[k].widget_id() < events[j].widget_id());
    }
}

/// A press where two widgets overlap presses both, the lower id first: no
/// widget shields the one beneath it.
pub proof fn lemma_press_fans_out(
    widgets: Seq<Button>,
    lower: WidgetId,
    upper: WidgetId,
    x: int,
    y: int,
)
    requires
        lower < upper < widgets.len() <= usize::MAX,
        widgets[lower as int].contains_point(x, y),
        widgets[upper as int].contains_point(x, y),
    ensures
        exists|j: int, k: int|
            {
                &&& 0 <= j < k < press_events(hover_flags(widgets, x, y)).len()
                &&& #[trigger] press_events(hover_flags(widgets, x, y))[j] == WidgetEvent::Press(
                    lower,
                )
                &&& #[trigger] press_events(hover_flags(widgets, x, y))[k] == WidgetEvent::Press(
                    upper,
                )
            },
{
    let hits = hover_flags(widgets, x, y);
    let events = press_events(hits);
    lemma_press_events(hits);
    assert(events.contains(WidgetEvent::Press(lower)));
    assert(events.contains(WidgetEvent::Press(upper)));
    let j = choose|j: int| 0 <= j < events.len() && events[j] == WidgetEvent::Press(lower);
    let k = choose|k: int| 0 <= k < events.len() && events[k] == WidgetEvent::Press(upper);
    assert(events[j].widget_id() == lower);
    assert(events[k].widget_id() == upper);
    if k < j {
        assert(events[k].widget_id() < events[j].widget_id());
    }
}

/// A release where two widgets overlap releases both, the lower id first.
pub proof fn lemma_release_fans_out(
    widgets: Seq<Button>,
    lower: WidgetId,
    upper: WidgetId,
    x: int,
    y: int,
)
    requires
        lower < upper < widgets.len() <= usize::MAX,
        widgets[lower as int].contains_point(x, y),
        widgets[upper as int].contains_point(x, y),
    ensures
        exists|j: int, k: int|
            {
                &&& 0 <= j < k < release_events(hover_flags(widgets, x, y)).len()
                &&& #[trigger] release_events(hover_flags(widgets, x, y))[j]
                    == WidgetEvent::Release(lower)
                &&& #[trigger] release_events(hover_flags(widgets, x, y))[k]
                    == WidgetEvent::Release(upper)
            },
{
    let hits = hover_flags(widgets, x, y);
    let events = release_events(hits);
    lemma_release_events(hits);
    assert(events.contains(WidgetEvent::Release(lower)));
    assert(events.contains(WidgetEvent::Release(upper)));
    let j = choose|j: int| 0 <= j < events.len() && events[j] == WidgetEvent::Release(lower);
    let k = choose|k: int| 0 <= k < events.len() && events[k] == WidgetEvent::Release(upper);
    assert(events[j].widget_id() == lower);
    assert(events[k].widget_id() == upper);
    if k < j {
        assert(events[k].widget_id() < events[j].widget_id());
    }
}

} // verus!
