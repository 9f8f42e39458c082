//! Request-id middleware.
//!
//! Each request gets a [`RequestId`] before the RPC dispatcher runs: the
//! value of the caller's `x-request-id` header when there is one, otherwise
//! `req-{n}` drawn from a counter that every service made by one
//! [`RequestIdLayer`] shares. Handlers read the id back (the Greet service
//! echoes it as a trailer).

use vstd::prelude::*;

use crate::text::decimal;
use crate::text::push_decimal;

verus! {

/// The header that carries a request id, in both directions.
pub const HEADER_NAME: &'static str = "x-request-id";

/// A byte that may stand in an HTTP header value: visible ASCII, a space or
/// a tab, or any byte of 128 and above.
pub open spec fn header_value_byte(b: u8) -> bool {
    (b >= 32 && b != 127) || b == 9
}

/// Every byte may stand in a header value.
pub open spec fn header_value_bytes(bytes: Seq<u8>) -> bool {
    forall|i: int| 0 <= i < bytes.len() ==> header_value_byte(#[trigger] bytes[i])
}

/// The bytes of an ASCII text.
pub open spec fn ascii_bytes(text: Seq<char>) -> Seq<u8> {
    text.map_values(|c: char| c as u8)
}

/// The text of the id drawn from counter value `n`: `req-{n}`.
pub open spec fn counter_id_text(n: u64) -> Seq<char> {
    "req-"@ + decimal(n as nat)
}

/// The bytes of the id drawn from counter value `n`.
pub open spec fn counter_id_bytes(n: u64) -> Seq<u8> {
    ascii_bytes(counter_id_text(n))
}

/// Per-request identifier: the bytes of its header value.
#[derive(Clone, Debug, PartialEq, Eq)]
pub struct RequestId(pub Vec<u8>);

/// Converts a string into an HTTP header value and hands back its bytes
/// (`http::HeaderValue::try_from(String)`). The conversion succeeds exactly
/// when every byte of the string's UTF-8 encoding may stand in a header
/// value, and then the value holds that encoding unchanged.
#[verifier::external_body]
fn header_value_from_string(s: String) -> (r: Option<Vec<u8>>)
    ensures
        r is Some <==> header_value_bytes(vstd::utf8::encode_utf8(s@)),
        r matches Some(bytes) ==> bytes@ == vstd::utf8::encode_utf8(s@),
{
    match http::HeaderValue::try_from(s) {
        Ok(value) => Some(value.as_bytes().to_vec()),
        Err(_) => None,
    }
}

/// Every character of a decimal representation is an ASCII digit.
proof fn decimal_is_digits(n: nat)
    ensures
        forall|i: int|
            0 <= i < decimal(n).len() ==> '0' <= #[trigger] decimal(n)[i] && decimal(n)[i] <= '9',
    decreases n,
{
    let d = decimal(n);
    if n >= 10 {
        decimal_is_digits(n / 10);
        let prefix = decimal(n / 10);
        assert(d == prefix.push(crate::text::digit_char(n % 10)));
        assert forall|i: int| 0 <= i < d.len() implies '0' <= #[trigger] d[i] && d[i] <= '9' by {
            if i < prefix.len() {
                assert(d[i] == prefix[i]);
            }
        }
    }
}

/// The id drawn from counter value `n`: the bytes of `req-{n}`. They are
/// ASCII by construction, so they always form a valid header value.
pub fn counter_id(n: u64) -> (r: Vec<u8>)
    ensures
        r@ == counter_id_bytes(n),
        header_value_bytes(r@),
{
    let mut text = String::from_str("req-");
    push_decimal(&mut text, n);
    proof {
        reveal_strlit("req-");
        decimal_is_digits(n as nat);
        let t = counter_id_text(n);
        assert(t == text@);
        assert forall|i: int| 0 <= i < t.len() implies '\t' <= #[trigger] t[i] <= '~' by {
            if i >= 4 {
                assert(t[i] == decimal(n as nat)[i - 4]);
            }
        }
        vstd::utf8::is_ascii_chars_encode_utf8(t);
        assert(vstd::utf8::encode_utf8(t) =~= counter_id_bytes(n));
        assert forall|i: int| 0 <= i < t.len() implies header_value_byte(
            #[trigger] counter_id_bytes(n)[i],
        ) by {
            assert(counter_id_bytes(n)[i] == t[i] as u8);
            if i >= 4 {
                assert(t[i] == decimal(n as nat)[i - 4]);
            }
        }
    }
    match header_value_from_string(text) {
        Some(bytes) => bytes,
        None => {
            proof {
                assert(false);
            }
            Vec::new()
        },
    }
}

/// The counter value after `n`: one more, wrapping from the largest `u64`
/// back to 0.
pub open spec fn following(n: u64) -> u64 {
    if n == u64::MAX {
        0
    } else {
        (n + 1) as u64
    }
}

/// Layer that assigns each incoming request a [`RequestId`].
///
/// A request that carries an `x-request-id` header keeps that value, so
/// callers can propagate their own trace id; any other request gets
/// `req-{n}` from this layer's counter, which starts at 0 and moves on by
/// one for each such request. Every service the layer wraps draws from this
/// one counter: whoever runs the services shares the layer between them.
pub struct RequestIdLayer {
    next: u64,
}

impl RequestIdLayer {
    /// The counter value the next request without a header gets.
    pub closed spec fn next_id(&self) -> u64 {
        self.next
    }

    /// A layer whose counter starts at 0.
    pub fn new() -> (r: Self)
        ensures
            r.next_id() == 0,
    {
        RequestIdLayer { next: 0 }
    }

    /// The counter value the next request without a header gets.
    pub fn peek_next_id(&self) -> (r: u64)
        ensures
            r == self.next_id(),
    {
        self.next
    }

    /// Wraps `inner`; the service draws its ids from this layer.
    pub fn layer<S>(&self, inner: S) -> (r: RequestIdService<S>)
        ensures
            r.wrapped() == inner,
    {
        RequestIdService { inner }
    }

    /// The id for a request whose `x-request-id` header holds `header`
    /// (`None` when the header is absent). The header's value is kept byte
    /// for byte, whether or not it is UTF-8, and the counter stays where it
    /// is; without one, the request gets `req-{n}` for the counter value `n`,
    /// a valid header value, and the counter moves on to the next value.
    pub fn assign(&mut self, header: Option<Vec<u8>>) -> (r: RequestId)
        ensures
            header matches Some(h) ==> r.0@ == h@,
            header is Some ==> final(self).next_id() == old(self).next_id(),
            header is None ==> r.0@ == counter_id_bytes(old(self).next_id()),
            header is None ==> final(self).next_id() == following(old(self).next_id()),
            header is None ==> header_value_bytes(r.0@),
    {
        match header {
            Some(h) => RequestId(h),
            None => {
                let n = self.next;
                self.next = if n == u64::MAX {
                    0
                } else {
                    n + 1
                };
                RequestId(counter_id(n))
            },
        }
    }
}

/// A service wrapped by [`RequestIdLayer`]: requests go on to `inner` once
/// the layer has assigned them an id.
#[derive(Clone)]
pub struct RequestIdService<S> {
    inner: S,
}

impl<S> RequestIdService<S> {
    /// The wrapped service.
    pub closed spec fn wrapped(&self) -> S {
        self.inner
    }

    /// The wrapped service.
    pub fn inner(&self) -> (r: &S)
        ensures
            *r == self.wrapped(),
    {
        &self.inner
    }

    /// The wrapped service, to hand the request on to.
    pub fn inner_mut(&mut self) -> (r: &mut S)
        ensures
            *r == old(self).wrapped(),
            final(self).wrapped() == *final(r),
    {
        &mut self.inner
    }
}

/// Different counter values give different decimal representations.
proof fn decimal_is_injective(a: nat, b: nat)
    ensures
        decimal(a) == decimal(b) ==> a == b,
    decreases a,
{
    decimal_len_at_least_one(a);
    decimal_len_at_least_one(b);
    if decimal(a) == decimal(b) {
        if a >= 10 && b >= 10 {
            let da = decimal(a);
            assert(da == decimal(a / 10).push(crate::text::digit_char(a % 10)));
            assert(decimal(b) == decimal(b / 10).push(crate::text::digit_char(b % 10)));
            assert(decimal(a / 10) =~= da.drop_last());
            assert(decimal(b / 10) =~= da.drop_last());
            decimal_is_injective(a / 10, b / 10);
            assert(da.last() == crate::text::digit_char(a % 10));
            assert(da.last() == crate::text::digit_char(b % 10));
            assert(a % 10 == b % 10);
            assert(a == 10 * (a / 10) + a % 10);
            assert(b == 10 * (b / 10) + b % 10);
        } else if a < 10 && b < 10 {
            assert(decimal(a)[0] == crate::text::digit_char(a));
            assert(decimal(b)[0] == crate::text::digit_char(b));
        } else if a >= 10 {
            decimal_len_at_least_one(a / 10);
        } else if b >= 10 {
            decimal_len_at_least_one(b / 10);
        }
    }
}

/// A decimal representation has at least one digit; one exactly below 10.
proof fn decimal_len_at_least_one(n: nat)
    ensures
        decimal(n).len() >= 1,
        n < 10 <==> decimal(n).len() == 1,
    decreases n,
{
    if n >= 10 {
        decimal_len_at_least_one(n / 10);
    }
}

/// Two requests without a header, one after the other, get `req-{n}` and
/// then `req-{n+1}`, which differ (below the largest `u64`, where the
/// counter wraps to 0).
pub proof fn header_less_ids_count_up(n: u64)
    requires
        n < u64::MAX,
    ensures
        following(n) == n + 1,
        counter_id_text(n) != counter_id_text(following(n)),
{
    decimal_is_injective(n as nat, (n + 1) as nat);
    let a = counter_id_text(n);
    let b = counter_id_text(following(n));
    if a == b {
        reveal_strlit("req-");
        assert(a.skip(4) =~= decimal(n as nat));
        assert(b.skip(4) =~= decimal((n + 1) as nat));
    }
}

} // verus!
