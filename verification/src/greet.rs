//! The unary Greet and Reverse services.

use vstd::prelude::*;

use crate::middleware::RequestId;
use crate::text::chars_of;
use crate::text::push_char;

verus! {

/// The greeting for `name`: `Hello, {name}!`, where an empty name stands
/// for `world`.
pub open spec fn greeting_text(name: Seq<char>) -> Seq<char> {
    let who = if name.len() == 0 { "world"@ } else { name };
    "Hello, "@ + who + "!"@
}

/// What the Greet service answers: the greeting, and the request id to send
/// back in the `x-request-id` trailer when one was assigned to the request.
#[derive(Clone, Debug, PartialEq, Eq)]
pub struct GreetReply {
    pub greeting: String,
    pub request_id_trailer: Option<Vec<u8>>,
}

/// The Greet service.
pub struct Greeter;

impl Greeter {
    /// Greets `name`. The request id that the middleware assigned, if any,
    /// is echoed as a trailer; without one the trailer stays absent.
    pub fn greet(&self, name: &str, request_id: Option<&RequestId>) -> (r: GreetReply)
        ensures
            r.greeting@ == greeting_text(name@),
            name@.len() > 0 ==> r.greeting@ == "Hello, "@ + name@ + "!"@,
            match request_id {
                Some(id) => r.request_id_trailer matches Some(t) && t@ == id.0@,
                None => r.request_id_trailer is None,
            },
    {
        let mut greeting = String::from_str("Hello, ");
        if name.is_empty() {
            greeting.append("world");
        } else {
            greeting.append(name);
        }
        greeting.append("!");
        let request_id_trailer = match request_id {
            Some(id) => Some(id.0.clone()),
            None => None,
        };
        GreetReply { greeting, request_id_trailer }
    }
}

/// The Reverse service.
pub struct Reverser;

impl Reverser {
    /// Reverses `text` codepoint by codepoint (a grapheme cluster made of
    /// several codepoints is split).
    pub fn reverse(&self, text: &str) -> (r: String)
        ensures
            r@ == text@.reverse(),
            r@.len() == text@.len(),
            forall|i: int| 0 <= i < text@.len() ==> r@[i] == text@[text@.len() - 1 - i],
    {
        let chars = chars_of(text);
        let mut reversed = String::new();
        let mut i = chars.len();
        while i > 0
            invariant
                chars@ == text@,
                i <= chars.len(),
                reversed@ == text@.subrange(i as int, text@.len() as int).reverse(),
            decreases i,
        {
            i = i - 1;
            push_char(&mut reversed, chars[i]);
            assert(reversed@ =~= text@.subrange(i as int, text@.len() as int).reverse());
        }
        assert(text@.subrange(0, text@.len() as int) =~= text@);
        reversed
    }
}

/// A greeting holds the whole name, unchanged, between `Hello, ` and `!`;
/// only an empty name is replaced, by `world`.
pub proof fn greeting_holds_the_whole_name(name: Seq<char>)
    ensures
        name.len() > 0 ==> greeting_text(name) == "Hello, "@ + name + "!"@,
        name.len() == 0 ==> greeting_text(name) == "Hello, world!"@,
{
    reveal_strlit("Hello, ");
    reveal_strlit("world");
    reveal_strlit("!");
    reveal_strlit("Hello, world!");
    assert("Hello, "@ + "world"@ + "!"@ =~= "Hello, world!"@);
}

/// Reversing twice gives back the text it started from.
pub proof fn reverse_is_involutive(text: Seq<char>)
    ensures
        text.reverse().reverse() == text,
{
    assert(text.reverse().reverse() =~= text);
}

/// Reversal keeps the number of codepoints.
pub proof fn reverse_keeps_length(text: Seq<char>)
    ensures
        text.reverse().len() == text.len(),
{
}

} // verus!
