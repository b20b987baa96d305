//! The decision that the dispatch loop makes on each event it receives.
use vstd::prelude::*;
use crate::event::Event;
use crate::frame::FrameLimiter;

verus! {

/// What the dispatch loop does with what it received.
#[derive(Clone, Debug, PartialEq, Eq)]
pub enum Dispatch<K, P, M, E> {
    /// Hand the event, with the current state, to the update function.
    Update(Event<K, P, M, E>),
    /// Leave the loop: with success on `None`, else failing with the error.
    Exit(Option<E>),
}

/// The decision on a received item; `None` stands for a closed channel.
pub open spec fn dispatched<K, P, M, E>(received: Option<Event<K, P, M, E>>) -> Dispatch<K, P, M, E> {
    match received {
        None => Dispatch::Exit(None),
        Some(Event::Quit(err)) => Dispatch::Exit(err),
        Some(ev) => Dispatch::Update(ev),
    }
}

/// Whether an event asks the loop to stop.
pub open spec fn is_quit<K, P, M, E>(ev: Event<K, P, M, E>) -> bool {
    ev is Quit
}

/// The loop fed `items` in turn, assuming that the update function keeps
/// going: the events handed to it in order, and how the loop ended, if it did.
pub open spec fn dispatch_run<K, P, M, E>(items: Seq<Option<Event<K, P, M, E>>>) -> (
    Seq<Event<K, P, M, E>>,
    Option<Option<E>>,
)
    decreases items.len(),
{
    if items.len() == 0 {
        (Seq::empty(), None)
    } else {
        match dispatched(items[0]) {
            Dispatch::Exit(err) => (Seq::empty(), Some(err)),
            Dispatch::Update(ev) => {
                let (rest, end) = dispatch_run(items.drop_first());
                (seq![ev] + rest, end)
            },
        }
    }
}

/// Decides what to do with a received item: a closed channel or a `Quit`
/// ends the loop, carrying the `Quit`'s error if any; every other event goes
/// to the update function. A `Redraw` also tells the frame limiter that its
/// pending timer has fired, so that the next early request may start one.
pub fn dispatch<K, P, M, E>(limiter: &mut FrameLimiter, received: Option<Event<K, P, M, E>>) -> (r:
    Dispatch<K, P, M, E>)
    ensures
        r == dispatched(received),
        *final(limiter) == (if received matches Some(Event::Redraw) {
            FrameLimiter { redraw_pending: false, ..*old(limiter) }
        } else {
            *old(limiter)
        }),
{
    match received {
        None => Dispatch::Exit(None),
        Some(ev) => match ev {
            Event::Quit(err) => Dispatch::Exit(err),
            Event::Redraw => {
                limiter.redraw_fired();
                Dispatch::Update(Event::Redraw)
            },
            Event::Input(k) => Dispatch::Update(Event::Input(k)),
            Event::Resize { cols, rows } => Dispatch::Update(Event::Resize { cols, rows }),
            Event::Click(p) => Dispatch::Update(Event::Click(p)),
            Event::Message(m) => Dispatch::Update(Event::Message(m)),
        },
    }
}

/// Events received in order, none of them a `Quit`, are all handed to the
/// update function in that order, and the loop goes on.
pub proof fn lemma_events_handed_in_order<K, P, M, E>(events: Seq<Event<K, P, M, E>>)
    requires
        forall|i: int| 0 <= i < events.len() ==> !is_quit(#[trigger] events[i]),
    ensures
        dispatch_run(events.map_values(|ev: Event<K, P, M, E>| Some(ev))) == (
            events,
            None::<Option<E>>,
        ),
    decreases events.len(),
{
    let items = events.map_values(|ev: Event<K, P, M, E>| Some(ev));
    if events.len() > 0 {
        let tail = events.drop_first();
        assert forall|i: int| 0 <= i < tail.len() implies !is_quit(#[trigger] tail[i]) by {
            assert(tail[i] == events[i + 1]);
        }
        lemma_events_handed_in_order(tail);
        assert(items.drop_first() =~= tail.map_values(|ev: Event<K, P, M, E>| Some(ev)));
        assert(!is_quit(events[0]));
        assert(dispatched(items[0]) == Dispatch::<K, P, M, E>::Update(events[0]));
        assert(seq![events[0]] + tail =~= events);
    } else {
        assert(items.len() == 0);
        assert(Seq::<Event<K, P, M, E>>::empty() =~= events);
    }
}

/// After events that hold no `Quit`, a `Quit` without error or the closing
/// of the channel ends the loop with success, and every earlier event has
/// been handed to the update function in order.
pub proof fn lemma_clean_quit_succeeds<K, P, M, E>(
    events: Seq<Event<K, P, M, E>>,
    last: Option<Event<K, P, M, E>>,
)
    requires
        forall|i: int| 0 <= i < events.len() ==> !is_quit(#[trigger] events[i]),
        last == None::<Event<K, P, M, E>> || last == Some(Event::<K, P, M, E>::Quit(None)),
    ensures
        dispatch_run(events.map_values(|ev: Event<K, P, M, E>| Some(ev)) + seq![last]) == (
            events,
            Some(None::<E>),
        ),
    decreases events.len(),
{
    let items = events.map_values(|ev: Event<K, P, M, E>| Some(ev)) + seq![last];
    if events.len() > 0 {
        let tail = events.drop_first();
        assert forall|i: int| 0 <= i < tail.len() implies !is_quit(#[trigger] tail[i]) by {
            assert(tail[i] == events[i + 1]);
        }
        lemma_clean_quit_succeeds(tail, last);
        assert(items.drop_first() =~= tail.map_values(|ev: Event<K, P, M, E>| Some(ev)) + seq![last]);
        assert(!is_quit(events[0]));
        assert(items[0] == Some(events[0]));
        assert(dispatched(items[0]) == Dispatch::<K, P, M, E>::Update(events[0]));
        assert(seq![events[0]] + tail =~= events);
    } else {
        assert(items =~= seq![last]);
        assert(dispatched(last) == Dispatch::<K, P, M, E>::Exit(None));
        assert(Seq::<Event<K, P, M, E>>::empty() =~= events);
    }
}

} // verus!
