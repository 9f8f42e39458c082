//! The bidirectional-streaming Echo service.
//!
//! Every text the client sends is answered with the same text and a
//! sequence number that counts the texts answered before it; an error in
//! the client's stream is passed on without using up a sequence number, and
//! the answers end when the client's stream ends.

use vstd::prelude::*;

verus! {

/// One message of the answer stream.
#[derive(Clone, Debug, PartialEq, Eq)]
pub struct EchoResponse {
    pub text: String,
    pub sequence: u32,
}

/// The number of texts (items that are not errors) in `items`.
pub open spec fn text_count<E>(items: Seq<Result<String, E>>) -> nat
    decreases items.len(),
{
    if items.len() == 0 {
        0
    } else {
        text_count(items.drop_last()) + if items.last() is Ok { 1nat } else { 0nat }
    }
}

/// The answer to item `i` of the client's stream `items`: the same text with
/// the number of texts before it as its sequence number, or the same error.
pub open spec fn echo_answer<E>(items: Seq<Result<String, E>>, i: int) -> Result<
    (Seq<char>, nat),
    E,
> {
    match items[i] {
        Ok(text) => Ok((text@, text_count(items.take(i)))),
        Err(e) => Err(e),
    }
}

/// What an answer says: its text and sequence number, or its error.
pub open spec fn echo_view<E>(answer: Result<EchoResponse, E>) -> Result<(Seq<char>, nat), E> {
    match answer {
        Ok(resp) => Ok((resp.text@, resp.sequence as nat)),
        Err(e) => Err(e),
    }
}

/// The Echo service.
pub struct Echoer;

impl Echoer {
    /// One step of the answer stream. `sequence` is the number the next
    /// answered text gets and `incoming` the client's next item (`None` once
    /// its stream has ended). Returns the item to send and the next
    /// sequence number, or `None` to end the answers.
    pub fn step<E>(&self, sequence: u32, incoming: Option<Result<String, E>>) -> (r: Option<
        (Result<EchoResponse, E>, u32),
    >)
        requires
            incoming matches Some(Ok(_)) ==> sequence < u32::MAX,
        ensures
            match incoming {
                None => r is None,
                Some(Ok(text)) => r matches Some((Ok(resp), next)) && resp.text@ == text@
                    && resp.sequence == sequence && next == sequence + 1,
                Some(Err(e)) => r matches Some((Err(e2), next)) && e2 == e && next == sequence,
            },
    {
        match incoming {
            Some(Ok(text)) => Some((Ok(EchoResponse { text, sequence }), sequence + 1)),
            Some(Err(e)) => Some((Err(e), sequence)),
            None => None,
        }
    }

    /// The whole answer stream for a client that sends `incoming` and then
    /// ends its stream: one answer per item, as [`echo_answer`] says.
    pub fn echo<E>(&self, incoming: Vec<Result<String, E>>) -> (r: Vec<Result<EchoResponse, E>>)
        requires
            text_count(incoming@) <= u32::MAX,
        ensures
            r@.len() == incoming@.len(),
            forall|i: int| 0 <= i < incoming@.len() ==> echo_view(#[trigger] r@[i]) == echo_answer(incoming@, i),
    {
        let ghost items = incoming@;
        let mut answers: Vec<Result<EchoResponse, E>> = Vec::new();
        let mut sequence: u32 = 0;
        for item in it: incoming
            invariant
                it.seq() == items,
                text_count(items) <= u32::MAX,
                answers@.len() == it.index(),
                sequence == text_count(items.take(it.index() as int)),
                forall|i: int| 0 <= i < answers@.len() ==> echo_view(#[trigger] answers@[i]) == echo_answer(items, i),
        {
            let ghost k = it.index() as int;
            proof {
                assert(items.take(k + 1).drop_last() =~= items.take(k));
                assert(items.take(k + 1).last() == items[k]);
                text_count_prefix(items, k + 1);
            }
            match self.step(sequence, Some(item)) {
                Some((answer, next)) => {
                    answers.push(answer);
                    sequence = next;
                },
                None => {},
            }
        }
        answers
    }
}

/// The texts in a prefix are no more than in the whole.
proof fn text_count_prefix<E>(items: Seq<Result<String, E>>, n: int)
    requires
        0 <= n <= items.len(),
    ensures
        text_count(items.take(n)) <= text_count(items),
    decreases items.len(),
{
    if n < items.len() {
        assert(items.drop_last().take(n) =~= items.take(n));
        text_count_prefix(items.drop_last(), n);
    } else {
        assert(items.take(n) =~= items);
    }
}

/// When every item is a text, answer `i` carries text `i` and sequence
/// number `i`.
pub proof fn echo_answers_number_texts_in_order<E>(items: Seq<Result<String, E>>, i: int)
    requires
        0 <= i < items.len(),
        forall|j: int| 0 <= j < items.len() ==> (#[trigger] items[j]) is Ok,
    ensures
        echo_answer(items, i) == Ok::<(Seq<char>, nat), E>((items[i]->Ok_0@, i as nat)),
{
    all_texts_count(items.take(i));
}

/// An error in the client's stream uses up no sequence number, a text uses
/// up exactly one: answers after an error are numbered as if it were absent.
pub proof fn errors_use_no_sequence_number<E>(items: Seq<Result<String, E>>, text: String, e: E)
    ensures
        text_count(items.push(Err(e))) == text_count(items),
        text_count(items.push(Ok(text))) == text_count(items) + 1,
{
    assert(items.push(Err(e)).drop_last() =~= items);
    assert(items.push(Ok(text)).drop_last() =~= items);
}

/// Each answer carries exactly what the client sent at the same place: the
/// same text, or the same error.
pub proof fn answers_mirror_the_items<E>(items: Seq<Result<String, E>>, i: int)
    requires
        0 <= i < items.len(),
    ensures
        items[i] matches Ok(t) ==> echo_answer(items, i) matches Ok(a) && a.0 == t@ && a.1
            == text_count(items.take(i)),
        items[i] matches Err(err) ==> echo_answer(items, i) == Err::<(Seq<char>, nat), E>(err),
{
}

/// A stream of texts only counts each of them.
proof fn all_texts_count<E>(items: Seq<Result<String, E>>)
    requires
        forall|j: int| 0 <= j < items.len() ==> (#[trigger] items[j]) is Ok,
    ensures
        text_count(items) == items.len(),
    decreases items.len(),
{
    if items.len() > 0 {
        all_texts_count(items.drop_last());
    }
}

} // verus!
