//! The reconnector of the inbound message stream, as an explicit state
//! machine: the caller performs each command and hands back its outcome.
use vstd::prelude::*;

verus! {

/// Milliseconds to wait after a failed connectivity probe before probing again.
pub const BACKOFF_MS: u64 = 10_000;

/// Where the reconnector stands.
#[derive(Clone, Copy, Debug, PartialEq, Eq, Structural)]
pub enum ReconnectState {
    /// Waiting for the result of a connectivity probe.
    Probing,
    /// Offline: waiting out the backoff interval.
    Backoff,
    /// Waiting for the message stream to open.
    Connecting,
    /// Waiting for the next message of an open stream.
    Streaming,
    /// The stream could not be opened; the reconnector has stopped.
    Fatal,
}

/// The outcome of the last command, handed back by the caller.
#[derive(Clone, Debug, PartialEq, Eq)]
pub enum ReconnectInput<M, E> {
    /// The connectivity probe answered online or offline.
    Probed(bool),
    /// The backoff interval has passed.
    Woke,
    /// The message stream opened.
    Opened,
    /// The message stream could not be opened.
    OpenFailed(E),
    /// The open stream yielded a message, or ended.
    Pulled(Option<M>),
}

/// What the caller does next.
#[derive(Clone, Debug, PartialEq, Eq)]
pub enum ReconnectAction<M, E> {
    /// Run the connectivity probe.
    Probe,
    /// Sleep for the given number of milliseconds.
    Sleep(u64),
    /// Ask the messaging client for a new message stream.
    Open,
    /// Wait for the next item of the open stream.
    Pull,
    /// Emit `Message(m)`, then wait for the next item of the stream.
    Forward(M),
    /// Emit `Quit(Some(e))` and stop.
    Fail(E),
    /// Stop.
    Stop,
}

/// The command that a state waits on: what the caller is asked again when
/// an input does not answer it.
pub open spec fn pending_action<M, E>(s: ReconnectState) -> ReconnectAction<M, E> {
    match s {
        ReconnectState::Probing => ReconnectAction::Probe,
        ReconnectState::Backoff => ReconnectAction::Sleep(BACKOFF_MS),
        ReconnectState::Connecting => ReconnectAction::Open,
        ReconnectState::Streaming => ReconnectAction::Pull,
        ReconnectState::Fatal => ReconnectAction::Stop,
    }
}

/// One transition: the next state and the action to perform.
pub open spec fn reconnect_step<M, E>(s: ReconnectState, input: ReconnectInput<M, E>) -> (
    ReconnectState,
    ReconnectAction<M, E>,
) {
    match (s, input) {
        (ReconnectState::Probing, ReconnectInput::Probed(false)) => (
            ReconnectState::Backoff,
            ReconnectAction::Sleep(BACKOFF_MS),
        ),
        (ReconnectState::Probing, ReconnectInput::Probed(true)) => (
            ReconnectState::Connecting,
            ReconnectAction::Open,
        ),
        (ReconnectState::Backoff, ReconnectInput::Woke) => (
            ReconnectState::Probing,
            ReconnectAction::Probe,
        ),
        (ReconnectState::Connecting, ReconnectInput::Opened) => (
            ReconnectState::Streaming,
            ReconnectAction::Pull,
        ),
        (ReconnectState::Connecting, ReconnectInput::OpenFailed(e)) => (
            ReconnectState::Fatal,
            ReconnectAction::Fail(e),
        ),
        (ReconnectState::Streaming, ReconnectInput::Pulled(Some(m))) => (
            ReconnectState::Streaming,
            ReconnectAction::Forward(m),
        ),
        (ReconnectState::Streaming, ReconnectInput::Pulled(None)) => (
            ReconnectState::Probing,
            ReconnectAction::Probe,
        ),
        _ => (s, pending_action(s)),
    }
}

/// The reconnector fed `inputs` in turn from state `s`: the final state and
/// the actions in order.
pub open spec fn reconnect_run<M, E>(s: ReconnectState, inputs: Seq<ReconnectInput<M, E>>) -> (
    ReconnectState,
    Seq<ReconnectAction<M, E>>,
)
    decreases inputs.len(),
{
    if inputs.len() == 0 {
        (s, Seq::empty())
    } else {
        let (next, a) = reconnect_step(s, inputs[0]);
        let (last, rest) = reconnect_run(next, inputs.drop_first());
        (last, seq![a] + rest)
    }
}

/// The state in which the reconnector starts.
pub fn initial_state() -> (r: ReconnectState)
    ensures
        r == ReconnectState::Probing,
{
    ReconnectState::Probing
}

/// The command to perform on entering state `s`.
pub fn first_action<M, E>(s: ReconnectState) -> (r: ReconnectAction<M, E>)
    ensures
        r == pending_action::<M, E>(s),
{
    match s {
        ReconnectState::Probing => ReconnectAction::Probe,
        ReconnectState::Backoff => ReconnectAction::Sleep(BACKOFF_MS),
        ReconnectState::Connecting => ReconnectAction::Open,
        ReconnectState::Streaming => ReconnectAction::Pull,
        ReconnectState::Fatal => ReconnectAction::Stop,
    }
}

/// Moves the reconnector on by the outcome of the last command. An offline
/// probe leads to the backoff sleep, an online one to opening the stream; a
/// stream that fails to open is fatal, one that ends leads back to probing.
/// An input that does not answer the current command changes nothing, and
/// the command is asked again.
pub fn step<M, E>(s: ReconnectState, input: ReconnectInput<M, E>) -> (r: (
    ReconnectState,
    ReconnectAction<M, E>,
))
    ensures
        r == reconnect_step(s, input),
{
    match (s, input) {
        (ReconnectState::Probing, ReconnectInput::Probed(online)) => {
            if online {
                (ReconnectState::Connecting, ReconnectAction::Open)
            } else {
                (ReconnectState::Backoff, ReconnectAction::Sleep(BACKOFF_MS))
            }
        },
        (ReconnectState::Backoff, ReconnectInput::Woke) => (
            ReconnectState::Probing,
            ReconnectAction::Probe,
        ),
        (ReconnectState::Connecting, ReconnectInput::Opened) => (
            ReconnectState::Streaming,
            ReconnectAction::Pull,
        ),
        (ReconnectState::Connecting, ReconnectInput::OpenFailed(e)) => (
            ReconnectState::Fatal,
            ReconnectAction::Fail(e),
        ),
        (ReconnectState::Streaming, ReconnectInput::Pulled(item)) => {
            match item {
                Some(m) => (ReconnectState::Streaming, ReconnectAction::Forward(m)),
                None => (ReconnectState::Probing, ReconnectAction::Probe),
            }
        },
        (s, _) => (s, first_action(s)),
    }
}

/// The reconnector of the inbound message stream.
#[derive(Clone, Copy, Debug, PartialEq, Eq, Structural)]
pub struct Reconnector {
    pub state: ReconnectState,
}

impl Reconnector {
    /// A reconnector about to probe connectivity.
    pub fn new() -> (r: Reconnector)
        ensures
            r.state == ReconnectState::Probing,
    {
        Reconnector { state: initial_state() }
    }

    /// The command to perform first, or again after a restart of the caller.
    pub fn current_action<M, E>(&self) -> (r: ReconnectAction<M, E>)
        ensures
            r == pending_action::<M, E>(self.state),
    {
        first_action(self.state)
    }

    /// Hands back the outcome of the last command and returns the next one.
    pub fn handle<M, E>(&mut self, input: ReconnectInput<M, E>) -> (r: ReconnectAction<M, E>)
        ensures
            (final(self).state, r) == reconnect_step(old(self).state, input),
    {
        let (next, action) = step(self.state, input);
        self.state = next;
        action
    }

    /// Whether the reconnector has stopped for good.
    pub fn is_stopped(&self) -> (r: bool)
        ensures
            r == (self.state == ReconnectState::Fatal),
    {
        match self.state {
            ReconnectState::Fatal => true,
            _ => false,
        }
    }
}

/// An offline probe opens no stream: the reconnector sleeps for exactly the
/// backoff interval of ten seconds, then probes again.
pub proof fn lemma_offline_backs_off<M, E>()
    ensures
        BACKOFF_MS == 10_000,
        reconnect_run(
            ReconnectState::Probing,
            seq![ReconnectInput::<M, E>::Probed(false), ReconnectInput::Woke],
        ) == (ReconnectState::Probing, seq![ReconnectAction::<M, E>::Sleep(BACKOFF_MS), ReconnectAction::Probe]),
{
    let inputs = seq![ReconnectInput::<M, E>::Probed(false), ReconnectInput::Woke];
    let tail = inputs.drop_first();
    let probe = seq![ReconnectAction::<M, E>::Probe];
    assert(tail =~= seq![ReconnectInput::<M, E>::Woke]);
    assert(tail.drop_first() =~= Seq::<ReconnectInput<M, E>>::empty());
    assert(reconnect_run(ReconnectState::Probing, tail.drop_first()) == (
        ReconnectState::Probing,
        Seq::<ReconnectAction<M, E>>::empty(),
    ));
    assert(probe + Seq::<ReconnectAction<M, E>>::empty() =~= probe);
    assert(reconnect_run(ReconnectState::Backoff, tail) == (ReconnectState::Probing, probe));
    assert(seq![ReconnectAction::<M, E>::Sleep(BACKOFF_MS)] + probe =~= seq![
        ReconnectAction::<M, E>::Sleep(BACKOFF_MS),
        ReconnectAction::Probe,
    ]);
}

/// Once fatal, the reconnector only ever answers `Stop`.
pub proof fn lemma_fatal_stays_stopped<M, E>(inputs: Seq<ReconnectInput<M, E>>)
    ensures
        reconnect_run(ReconnectState::Fatal, inputs) == (
            ReconnectState::Fatal,
            Seq::new(inputs.len(), |i: int| ReconnectAction::<M, E>::Stop),
        ),
    decreases inputs.len(),
{
    if inputs.len() > 0 {
        lemma_fatal_stays_stopped(inputs.drop_first());
        assert(seq![ReconnectAction::<M, E>::Stop] + Seq::new(
            (inputs.len() - 1) as nat,
            |i: int| ReconnectAction::<M, E>::Stop,
        ) =~= Seq::new(inputs.len(), |i: int| ReconnectAction::<M, E>::Stop));
    } else {
        assert(Seq::<ReconnectAction<M, E>>::empty() =~= Seq::new(inputs.len(), |i: int| ReconnectAction::<M, E>::Stop));
    }
}

/// A stream that fails to open yields exactly one `Fail` carrying the error;
/// whatever comes after, no attempt to probe or reconnect is made again.
pub proof fn lemma_open_failure_is_final<M, E>(e: E, rest: Seq<ReconnectInput<M, E>>)
    ensures
        reconnect_run(ReconnectState::Connecting, seq![ReconnectInput::OpenFailed(e)] + rest) == (
            ReconnectState::Fatal,
            seq![ReconnectAction::<M, E>::Fail(e)] + Seq::new(
                rest.len(),
                |i: int| ReconnectAction::<M, E>::Stop,
            ),
        ),
{
    let inputs = seq![ReconnectInput::OpenFailed(e)] + rest;
    assert(inputs.drop_first() =~= rest);
    lemma_fatal_stays_stopped(rest);
}

/// The inputs of an open stream that yields `ms` and then ends.
pub open spec fn stream_inputs<M, E>(ms: Seq<M>) -> Seq<ReconnectInput<M, E>> {
    ms.map_values(|m: M| ReconnectInput::<M, E>::Pulled(Some(m))) + seq![
        ReconnectInput::<M, E>::Pulled(None),
    ]
}

/// A stream that yields `ms` and then ends is forwarded message by message,
/// in order, and then the reconnector goes back to probing, with no failure.
pub proof fn lemma_stream_forwarded_in_order<M, E>(ms: Seq<M>)
    ensures
        reconnect_run(ReconnectState::Streaming, stream_inputs::<M, E>(ms)) == (
            ReconnectState::Probing,
            ms.map_values(|m: M| ReconnectAction::<M, E>::Forward(m)) + seq![
                ReconnectAction::<M, E>::Probe,
            ],
        ),
    decreases ms.len(),
{
    let inputs = stream_inputs::<M, E>(ms);
    let expected = ms.map_values(|m: M| ReconnectAction::<M, E>::Forward(m)) + seq![
        ReconnectAction::<M, E>::Probe,
    ];
    if ms.len() == 0 {
        assert(inputs =~= seq![ReconnectInput::<M, E>::Pulled(None)]);
        assert(inputs.drop_first() =~= Seq::<ReconnectInput<M, E>>::empty());
        assert(reconnect_run(ReconnectState::Probing, inputs.drop_first()) == (
            ReconnectState::Probing,
            Seq::<ReconnectAction<M, E>>::empty(),
        ));
        assert(expected =~= seq![ReconnectAction::<M, E>::Probe]);
        assert(seq![ReconnectAction::<M, E>::Probe] + Seq::<ReconnectAction<M, E>>::empty() =~= seq![ReconnectAction::<M, E>::Probe]);
    } else {
        let tail = ms.drop_first();
        lemma_stream_forwarded_in_order::<M, E>(tail);
        assert(inputs[0] == ReconnectInput::<M, E>::Pulled(Some(ms[0])));
        assert(inputs.drop_first() =~= stream_inputs::<M, E>(tail));
        assert(reconnect_step(ReconnectState::Streaming, inputs[0]) == (
            ReconnectState::Streaming,
            ReconnectAction::<M, E>::Forward(ms[0]),
        ));
        assert(seq![ReconnectAction::<M, E>::Forward(ms[0])] + (tail.map_values(
            |m: M| ReconnectAction::<M, E>::Forward(m),
        ) + seq![ReconnectAction::<M, E>::Probe]) =~= expected);
    }
}

} // verus!
