//! The full-duplex Heartbeat service: an `open` message before any request
//! is read, one echo per request, then a `close` message once the client's
//! stream ends.

use vstd::prelude::*;

verus! {

/// One message of the answer stream.
#[derive(Clone, Debug, PartialEq, Eq)]
pub struct HeartbeatResponse {
    pub sequence: u32,
    pub note: String,
}

/// Where the answer stream stands.
#[derive(Clone, Copy, Debug, PartialEq, Eq, Structural)]
pub enum HeartbeatState {
    /// Nothing sent yet: the `open` message comes next.
    EmitInitial,
    /// Echoing requests; the next message gets number `sequence`.
    Echoing { sequence: u32 },
    /// The stream is over.
    Done,
}

impl HeartbeatState {
    /// Whether the next step needs the client's next item; the other states
    /// answer without reading the client's stream.
    pub fn reads_request(&self) -> (r: bool)
        ensures
            r == self is Echoing,
    {
        match self {
            HeartbeatState::Echoing { .. } => true,
            _ => false,
        }
    }
}

/// The answers to the client's items `items` once `sequence` is the next
/// sequence number: an echo per note, numbered from `sequence` on, up to the
/// first error, which is passed on and ends the stream; without an error a
/// final `close` message follows the last echo.
pub open spec fn echoes<E>(items: Seq<Result<String, E>>, sequence: nat) -> Seq<
    Result<(nat, Seq<char>), E>,
>
    decreases items.len(),
{
    if items.len() == 0 {
        seq![Ok((sequence, "close"@))]
    } else {
        match items[0] {
            Ok(note) => seq![Ok((sequence, note@))] + echoes(items.drop_first(), sequence + 1),
            Err(e) => seq![Err(e)],
        }
    }
}

/// The whole answer stream for a client that sends `items` and then ends
/// its stream: `open` as message 0, then [`echoes`] from number 1 on.
pub open spec fn heartbeat_answers<E>(items: Seq<Result<String, E>>) -> Seq<
    Result<(nat, Seq<char>), E>,
> {
    seq![Ok((0nat, "open"@))] + echoes(items, 1)
}

/// The number of notes before the first error in `items` (all of them when
/// there is none).
pub open spec fn leading_notes<E>(items: Seq<Result<String, E>>) -> nat
    decreases items.len(),
{
    if items.len() == 0 {
        0
    } else if items[0] is Ok {
        1 + leading_notes(items.drop_first())
    } else {
        0
    }
}

/// What a message says: its number and note, or its error.
pub open spec fn heartbeat_view<E>(answer: Result<HeartbeatResponse, E>) -> Result<
    (nat, Seq<char>),
    E,
> {
    match answer {
        Ok(resp) => Ok((resp.sequence as nat, resp.note@)),
        Err(e) => Err(e),
    }
}

/// The Heartbeat service.
pub struct Heartbeat;

impl Heartbeat {
    /// The state a new answer stream starts in.
    pub fn start(&self) -> (r: HeartbeatState)
        ensures
            r == HeartbeatState::EmitInitial,
    {
        HeartbeatState::EmitInitial
    }

    /// One step of the answer stream from `state`. `incoming` is the
    /// client's next item (`None` once its stream has ended); it is read only
    /// in the `Echoing` state and ignored in the others. Returns the message
    /// to send and the next state, or `None` to end the stream.
    pub fn step<E>(&self, state: HeartbeatState, incoming: Option<Result<String, E>>) -> (r: Option<
        (Result<HeartbeatResponse, E>, HeartbeatState),
    >)
        requires
            state matches HeartbeatState::Echoing { sequence } ==> (incoming matches Some(Ok(_))
                ==> sequence < u32::MAX),
        ensures
            match state {
                HeartbeatState::EmitInitial => r matches Some((Ok(resp), next)) && resp.sequence
                    == 0 && resp.note@ == "open"@ && next == (HeartbeatState::Echoing {
                    sequence: 1,
                }),
                HeartbeatState::Echoing { sequence } => match incoming {
                    Some(Ok(note)) => r matches Some((Ok(resp), next)) && resp.sequence == sequence
                        && resp.note@ == note@ && next == (HeartbeatState::Echoing {
                        sequence: (sequence + 1) as u32,
                    }),
                    Some(Err(e)) => r matches Some((Err(e2), next)) && e2 == e && next
                        == HeartbeatState::Done,
                    None => r matches Some((Ok(resp), next)) && resp.sequence == sequence
                        && resp.note@ == "close"@ && next == HeartbeatState::Done,
                },
                HeartbeatState::Done => r is None,
            },
    {
        match state {
            HeartbeatState::EmitInitial => {
                let resp = HeartbeatResponse { sequence: 0, note: String::from_str("open") };
                Some((Ok(resp), HeartbeatState::Echoing { sequence: 1 }))
            },
            HeartbeatState::Echoing { sequence } => match incoming {
                Some(Ok(note)) => {
                    let resp = HeartbeatResponse { sequence, note };
                    Some((Ok(resp), HeartbeatState::Echoing { sequence: sequence + 1 }))
                },
                Some(Err(e)) => Some((Err(e), HeartbeatState::Done)),
                None => {
                    let resp = HeartbeatResponse { sequence, note: String::from_str("close") };
                    Some((Ok(resp), HeartbeatState::Done))
                },
            },
            HeartbeatState::Done => None,
        }
    }

    /// The whole answer stream for a client that sends `incoming` and then
    /// ends its stream (see [`heartbeat_answers`]).
    pub fn heartbeat<E>(&self, incoming: Vec<Result<String, E>>) -> (r: Vec<
        Result<HeartbeatResponse, E>,
    >)
        requires
            leading_notes(incoming@) < u32::MAX,
        ensures
            r@.map_values(|a: Result<HeartbeatResponse, E>| heartbeat_view(a))
                == heartbeat_answers(incoming@),
    {
        let ghost items = incoming@;
        let mut answers: Vec<Result<HeartbeatResponse, E>> = Vec::new();
        let mut state = self.start();
        match self.step(state, None) {
            Some((answer, next)) => {
                answers.push(answer);
                state = next;
            },
            None => {},
        }
        let ghost full = heartbeat_answers(items);
        proof {
            assert(items.skip(0) =~= items);
        }
        for item in it: incoming
            invariant
                it.seq() == items,
                full == heartbeat_answers(items),
                leading_notes(items) < u32::MAX,
                !(state is EmitInitial),
                state matches HeartbeatState::Echoing { sequence } ==> {
                    &&& sequence == it.index() + 1
                    &&& forall|j: int| 0 <= j < it.index() ==> (#[trigger] items[j]) is Ok
                    &&& answers@.map_values(|a: Result<HeartbeatResponse, E>| heartbeat_view(a))
                        + echoes(items.skip(it.index() as int), sequence as nat) == full
                },
                state is Done ==> answers@.map_values(
                    |a: Result<HeartbeatResponse, E>| heartbeat_view(a),
                ) == full,
        {
            let ghost k = it.index() as int;
            let ghost before = answers@.map_values(|a: Result<HeartbeatResponse, E>| heartbeat_view(a));
            if state.reads_request() {
                proof {
                    assert(items.skip(k).len() > 0);
                    assert(items.skip(k)[0] == items[k]);
                    assert(items.skip(k).drop_first() =~= items.skip(k + 1));
                    if items[k] is Ok {
                        leading_notes_bound(items, k);
                    }
                }
                match self.step(state, Some(item)) {
                    Some((answer, next)) => {
                        answers.push(answer);
                        state = next;
                    },
                    None => {},
                }
                proof {
                    let after = answers@.map_values(|a: Result<HeartbeatResponse, E>| heartbeat_view(a));
                    assert(after =~= before.push(after.last()));
                    if state is Done {
                        assert(after =~= before + echoes(items.skip(k), (k + 1) as nat));
                    } else {
                        assert(after + echoes(items.skip(k + 1), (k + 2) as nat) =~= before
                            + echoes(items.skip(k), (k + 1) as nat));
                    }
                }
            }
        }
        if state.reads_request() {
            let ghost before = answers@.map_values(|a: Result<HeartbeatResponse, E>| heartbeat_view(a));
            match self.step::<E>(state, None) {
                Some((answer, next)) => {
                    answers.push(answer);
                    state = next;
                },
                None => {},
            }
            proof {
                assert(items.skip(items.len() as int) =~= Seq::<Result<String, E>>::empty());
                let after = answers@.map_values(|a: Result<HeartbeatResponse, E>| heartbeat_view(a));
                assert(after =~= before + echoes(items.skip(items.len() as int), (items.len() + 1) as nat));
            }
        }
        answers
    }
}

/// A note at `k` preceded only by notes is among the leading notes.
proof fn leading_notes_bound<E>(items: Seq<Result<String, E>>, k: int)
    requires
        0 <= k < items.len(),
        forall|j: int| 0 <= j <= k ==> (#[trigger] items[j]) is Ok,
    ensures
        k + 1 <= leading_notes(items),
    decreases k,
{
    if k > 0 {
        let rest = items.drop_first();
        assert forall|j: int| 0 <= j <= k - 1 implies (#[trigger] rest[j]) is Ok by {
            assert(rest[j] == items[j + 1]);
        }
        leading_notes_bound(rest, k - 1);
    }
}

/// When the client sends only notes, the stream is `open` (number 0), one
/// echo per note numbered from 1, and `close` numbered one past the last
/// echo.
pub proof fn heartbeat_frames_the_echoes<E>(items: Seq<Result<String, E>>)
    requires
        forall|j: int| 0 <= j < items.len() ==> (#[trigger] items[j]) is Ok,
    ensures
        heartbeat_answers(items).len() == items.len() + 2,
        heartbeat_answers(items)[0] == Ok::<(nat, Seq<char>), E>((0nat, "open"@)),
        forall|j: int|
            0 <= j < items.len() ==> heartbeat_answers(items)[j + 1] == Ok::<(nat, Seq<char>), E>(
                ((j + 1) as nat, (#[trigger] items[j])->Ok_0@),
            ),
        heartbeat_answers(items)[items.len() + 1int] == Ok::<(nat, Seq<char>), E>(
            ((items.len() + 1) as nat, "close"@),
        ),
{
    echoes_of_notes(items, 1);
}

/// The `open` message leads the answers whatever the client sends, an
/// immediate error included; there are always at least two messages (`open`
/// and then an echo, an error or `close`).
pub proof fn heartbeat_opens_before_reading<E>(items: Seq<Result<String, E>>)
    ensures
        heartbeat_answers(items).len() >= 2,
        heartbeat_answers(items)[0] == Ok::<(nat, Seq<char>), E>((0nat, "open"@)),
        heartbeat_answers(items).drop_first() == echoes(items, 1),
{
    let e = echoes(items, 1);
    assert(e.len() >= 1);
    assert(heartbeat_answers(items).drop_first() =~= e);
}

/// When the client's item `k` is its first error, the stream is `open`,
/// the echoes of the `k` notes before it numbered from 1, then the error,
/// and nothing more: no `close` follows an error.
pub proof fn heartbeat_ends_at_the_first_error<E>(items: Seq<Result<String, E>>, k: int)
    requires
        0 <= k < items.len(),
        items[k] is Err,
        forall|j: int| 0 <= j < k ==> (#[trigger] items[j]) is Ok,
    ensures
        heartbeat_answers(items).len() == k + 2,
        heartbeat_answers(items)[0] == Ok::<(nat, Seq<char>), E>((0nat, "open"@)),
        forall|j: int|
            0 <= j < k ==> heartbeat_answers(items)[j + 1] == Ok::<(nat, Seq<char>), E>(
                ((j + 1) as nat, (#[trigger] items[j])->Ok_0@),
            ),
        heartbeat_answers(items)[k + 1] == Err::<(nat, Seq<char>), E>(items[k]->Err_0),
{
    echoes_up_to_error(items, 1, k);
}

/// The echoes of a stream whose first error is item `k`.
proof fn echoes_up_to_error<E>(items: Seq<Result<String, E>>, sequence: nat, k: int)
    requires
        0 <= k < items.len(),
        items[k] is Err,
        forall|j: int| 0 <= j < k ==> (#[trigger] items[j]) is Ok,
    ensures
        echoes(items, sequence).len() == k + 1,
        forall|j: int|
            0 <= j < k ==> echoes(items, sequence)[j] == Ok::<(nat, Seq<char>), E>(
                ((sequence + j) as nat, (#[trigger] items[j])->Ok_0@),
            ),
        echoes(items, sequence)[k] == Err::<(nat, Seq<char>), E>(items[k]->Err_0),
    decreases k,
{
    if k > 0 {
        let rest = items.drop_first();
        assert forall|j: int| 0 <= j < k - 1 implies (#[trigger] rest[j]) is Ok by {
            assert(rest[j] == items[j + 1]);
        }
        assert(rest[k - 1] == items[k]);
        echoes_up_to_error(rest, sequence + 1, k - 1);
        let e = echoes(items, sequence);
        assert(items[0] is Ok);
        assert(e == seq![Ok((sequence, items[0]->Ok_0@))] + echoes(rest, sequence + 1));
        assert forall|j: int| 0 <= j < k implies e[j] == Ok::<(nat, Seq<char>), E>(
            ((sequence + j) as nat, (#[trigger] items[j])->Ok_0@),
        ) by {
            if j > 0 {
                assert(rest[j - 1] == items[j]);
            }
        }
    }
}

/// The echoes of a stream of notes only, numbered from `sequence`.
proof fn echoes_of_notes<E>(items: Seq<Result<String, E>>, sequence: nat)
    requires
        forall|j: int| 0 <= j < items.len() ==> (#[trigger] items[j]) is Ok,
    ensures
        echoes(items, sequence).len() == items.len() + 1,
        forall|j: int|
            0 <= j < items.len() ==> echoes(items, sequence)[j] == Ok::<(nat, Seq<char>), E>(
                ((sequence + j) as nat, (#[trigger] items[j])->Ok_0@),
            ),
        echoes(items, sequence)[items.len() as int] == Ok::<(nat, Seq<char>), E>(
            ((sequence + items.len()) as nat, "close"@),
        ),
    decreases items.len(),
{
    if items.len() > 0 {
        let rest = items.drop_first();
        assert forall|j: int| 0 <= j < rest.len() implies (#[trigger] rest[j]) is Ok by {
            assert(rest[j] == items[j + 1]);
        }
        echoes_of_notes(rest, sequence + 1);
        let e = echoes(items, sequence);
        assert(e == seq![Ok((sequence, items[0]->Ok_0@))] + echoes(rest, sequence + 1));
        assert forall|j: int| 0 <= j < items.len() implies e[j] == Ok::<(nat, Seq<char>), E>(
            ((sequence + j) as nat, (#[trigger] items[j])->Ok_0@),
        ) by {
            if j > 0 {
                assert(rest[j - 1] == items[j]);
            }
        }
    }
}

} // verus!
