//! Events carried through the channel from the producers to the dispatch loop.
use vstd::prelude::*;

verus! {

/// One unit of work for the dispatch loop, tagged by its origin.
///
/// `K` is key-press data, `P` pointer data, `M` a decoded message and `E` a
/// fatal error; the core carries them without reading them.
#[derive(Clone, Debug, PartialEq, Eq)]
pub enum Event<K, P, M, E> {
    Input(K),
    Resize { cols: u16, rows: u16 },
    Click(P),
    Message(M),
    Redraw,
    Quit(Option<E>),
}

/// A raw notification of the terminal input source.
#[derive(Clone, Debug, PartialEq, Eq)]
pub enum RawInput<K, P> {
    Key(K),
    Resize(u16, u16),
    Mouse(P),
    /// Any other kind of notification, or an error of the source.
    Other,
}

/// The event that a raw notification becomes, if any.
pub open spec fn translated<K, P, M, E>(raw: RawInput<K, P>) -> Option<Event<K, P, M, E>> {
    match raw {
        RawInput::Key(k) => Some(Event::Input(k)),
        RawInput::Resize(cols, rows) => Some(Event::Resize { cols, rows }),
        RawInput::Mouse(p) => Some(Event::Click(p)),
        RawInput::Other => None,
    }
}

/// Turns a raw terminal notification into the event to forward: key presses,
/// resizes and pointer actions are always forwarded, anything else is dropped.
pub fn translate_input<K, P, M, E>(raw: RawInput<K, P>) -> (r: Option<Event<K, P, M, E>>)
    ensures
        r == translated::<K, P, M, E>(raw),
{
    match raw {
        RawInput::Key(k) => Some(Event::Input(k)),
        RawInput::Resize(cols, rows) => Some(Event::Resize { cols, rows }),
        RawInput::Mouse(p) => Some(Event::Click(p)),
        RawInput::Other => None,
    }
}

} // verus!
