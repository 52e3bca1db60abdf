use vstd::prelude::*;

verus! {

/// One of the possible window events.
#[derive(Clone, Copy, PartialEq, Eq, Debug, Structural)]
pub enum Event {
    Resized,
    CloseRequested,
}

/// The latest events received by an engine window.
#[derive(Debug, Default)]
pub struct Events {
    pub latest: Vec<Event>,
}

/// The kinds of event that the window system reports for a window.
#[derive(Clone, Copy, PartialEq, Eq, Debug, Structural)]
pub enum WindowEvent {
    CloseRequested,
    Resized,
    /// Any other event (input, focus, redraw, ...).
    Other,
}

/// The engine event that a window-system event becomes, if any.
pub open spec fn spec_convert(event: WindowEvent) -> Option<Event> {
    match event {
        WindowEvent::CloseRequested => Some(Event::CloseRequested),
        WindowEvent::Resized => Some(Event::Resized),
        WindowEvent::Other => None,
    }
}

/// The engine event that a window-system event becomes: closing requests and
/// resizes are kept, every other event is ignored.
pub fn convert_event(event: WindowEvent) -> (e: Option<Event>)
    ensures
        e == spec_convert(event),
{
    match event {
        WindowEvent::CloseRequested => Some(Event::CloseRequested),
        WindowEvent::Resized => Some(Event::Resized),
        WindowEvent::Other => None,
    }
}

/// The engine events that the window-system events `polled` become, in
/// order.
pub open spec fn spec_convert_all(polled: Seq<WindowEvent>) -> Seq<Event>
    decreases polled.len(),
{
    if polled.len() == 0 {
        seq![]
    } else {
        let rest = spec_convert_all(polled.drop_last());
        match spec_convert(polled.last()) {
            Some(e) => rest.push(e),
            None => rest,
        }
    }
}

/// The engine events of one window-system event: none or one.
pub open spec fn converted(event: WindowEvent) -> Seq<Event> {
    match spec_convert(event) {
        Some(e) => seq![e],
        None => seq![],
    }
}

/// Closing requests and resizes become the engine events of the same name;
/// every other window-system event is dropped.
pub proof fn lemma_convert_keeps_close_and_resize(event: WindowEvent)
    ensures
        event == WindowEvent::CloseRequested <==> spec_convert(event) == Some(Event::CloseRequested),
        event == WindowEvent::Resized <==> spec_convert(event) == Some(Event::Resized),
        event == WindowEvent::Other <==> spec_convert(event) is None,
{
}

/// Every polled event is converted, in order: no events give none, one
/// event gives its own conversion, and polling `a` then `b` gives the events
/// of `a` followed by those of `b`.
pub proof fn lemma_convert_all_each_event(a: Seq<WindowEvent>, b: Seq<WindowEvent>, x: WindowEvent)
    ensures
        spec_convert_all(Seq::<WindowEvent>::empty()) == Seq::<Event>::empty(),
        spec_convert_all(seq![x]) == converted(x),
        spec_convert_all(a.push(x)) == spec_convert_all(a) + converted(x),
        spec_convert_all(a + b) == spec_convert_all(a) + spec_convert_all(b),
        spec_convert_all(a).len() <= a.len(),
    decreases b.len(),
{
    assert(seq![x].drop_last() =~= Seq::<WindowEvent>::empty());
    assert(seq![x].last() == x);
    assert(spec_convert_all(Seq::<WindowEvent>::empty()) =~= Seq::<Event>::empty());
    assert(spec_convert_all(seq![x].drop_last()) =~= Seq::<Event>::empty());
    assert(a.push(x).drop_last() =~= a);
    assert(spec_convert_all(seq![x]) =~= converted(x));
    assert(spec_convert_all(a.push(x)) =~= spec_convert_all(a) + converted(x));
    lemma_convert_all_len(a);
    if b.len() == 0 {
        assert(a + b =~= a);
        assert(spec_convert_all(a) + spec_convert_all(b) =~= spec_convert_all(a));
    } else {
        let front = b.drop_last();
        lemma_convert_all_each_event(a, front, b.last());
        assert((a + b).drop_last() =~= a + front);
        assert((a + front).push(b.last()) =~= a + b);
        assert(front.push(b.last()) =~= b);
        lemma_convert_all_each_event(a + front, Seq::empty(), b.last());
        lemma_convert_all_each_event(front, Seq::empty(), b.last());
        assert(spec_convert_all(a + b) =~= spec_convert_all(a) + spec_convert_all(b));
    }
}

proof fn lemma_convert_all_len(a: Seq<WindowEvent>)
    ensures
        spec_convert_all(a).len() <= a.len(),
    decreases a.len(),
{
    if a.len() > 0 {
        lemma_convert_all_len(a.drop_last());
    }
}

/// Adds the engine event of each polled window-system event to `events`, in
/// the order they were polled.
pub fn poll_into(polled: &Vec<WindowEvent>, events: &mut Vec<Event>)
    ensures
        final(events)@ == old(events)@ + spec_convert_all(polled@),
{
    let mut i: usize = 0;
    while i < polled.len()
        invariant
            i <= polled@.len(),
            events@ == old(events)@ + spec_convert_all(polled@.take(i as int)),
        decreases polled@.len() - i,
    {
        proof {
            assert(polled@.take(i + 1).drop_last() =~= polled@.take(i as int));
        }
        match convert_event(polled[i]) {
            Some(e) => {
                events.push(e);
                proof {
                    assert(events@ =~= old(events)@ + spec_convert_all(polled@.take(i + 1)));
                }
            },
            None => {},
        }
        i = i + 1;
    }
    proof {
        assert(polled@.take(polled@.len() as int) =~= polled@);
    }
}

/// What a window-system event changes about the window.
#[derive(Clone, Copy, PartialEq, Eq, Debug, Structural)]
pub struct WindowUpdate {
    /// The window's size must be read again from the window system.
    pub refresh_size: bool,
    /// The engine must exit.
    pub exit_requested: bool,
}

/// Applies one window-system event to the window's state: a resize makes the
/// window's size stale, a closing request asks the engine to exit, and the
/// exit request, once made, stays.
pub fn update_on_event(event: WindowEvent, exit_requested: bool) -> (u: WindowUpdate)
    ensures
        u.refresh_size == (event == WindowEvent::Resized),
        u.exit_requested == (exit_requested || event == WindowEvent::CloseRequested),
{
    match event {
        WindowEvent::Resized => WindowUpdate { refresh_size: true, exit_requested },
        WindowEvent::CloseRequested => WindowUpdate { refresh_size: false, exit_requested: true },
        WindowEvent::Other => WindowUpdate { refresh_size: false, exit_requested },
    }
}

} // verus!
