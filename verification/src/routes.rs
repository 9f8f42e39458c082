//! Plain HTTP routes (OAuth callback, health check) answered ahead of the
//! RPC stack.
//!
//! A request is matched on its method and path alone; a match answers with a
//! status and a plain-text body, anything else goes on to the RPC
//! dispatcher.

use vstd::prelude::*;

use crate::text::chars_of;
use crate::text::push_char;

verus! {

/// The content type of every route's answer.
pub const CONTENT_TYPE: &'static str = "text/plain; charset=utf-8";

/// Status 200.
pub const STATUS_OK: u16 = 200;

/// Status 400.
pub const STATUS_BAD_REQUEST: u16 = 400;

/// A route's answer: status code and plain-text body.
#[derive(Clone, Debug, PartialEq, Eq)]
pub struct RouteReply {
    pub status: u16,
    pub body: String,
}

/// The pieces of `s` between occurrences of `sep`, in order: one more piece
/// than there are separators, and an empty text gives one empty piece.
pub open spec fn split_on(s: Seq<char>, sep: char) -> Seq<Seq<char>>
    decreases s.len(),
{
    if s.len() == 0 {
        seq![Seq::<char>::empty()]
    } else {
        let init = split_on(s.drop_last(), sep);
        if s.last() == sep {
            init.push(Seq::<char>::empty())
        } else {
            init.update(init.len() - 1, init.last().push(s.last()))
        }
    }
}

/// `i` is the position of the first `c` in `s`.
pub open spec fn is_first_index(s: Seq<char>, c: char, i: int) -> bool {
    &&& 0 <= i < s.len()
    &&& s[i] == c
    &&& forall|j: int| 0 <= j < i ==> s[j] != c
}

/// `s` split at its first `c` into the text before and the text after it;
/// `None` when `s` holds no `c`.
pub open spec fn split_once(s: Seq<char>, c: char) -> Option<(Seq<char>, Seq<char>)> {
    if s.contains(c) {
        let i = choose|i: int| is_first_index(s, c, i);
        Some((s.take(i), s.skip(i + 1)))
    } else {
        None
    }
}

/// The key/value pairs of the pieces that hold an `=`, in order.
pub open spec fn pairs_of(pieces: Seq<Seq<char>>) -> Seq<(Seq<char>, Seq<char>)>
    decreases pieces.len(),
{
    if pieces.len() == 0 {
        seq![]
    } else {
        let init = pairs_of(pieces.drop_last());
        match split_once(pieces.last(), '=') {
            Some(pair) => init.push(pair),
            None => init,
        }
    }
}

/// The key/value pairs of a query string: its `&`-separated pieces, each
/// split at its first `=`; pieces without `=` are dropped. No
/// percent-decoding takes place.
pub open spec fn query_pairs(query: Seq<char>) -> Seq<(Seq<char>, Seq<char>)> {
    pairs_of(split_on(query, '&'))
}

/// The value of the last pair with key `key`.
pub open spec fn last_value_for(pairs: Seq<(Seq<char>, Seq<char>)>, key: Seq<char>) -> Option<
    Seq<char>,
>
    decreases pairs.len(),
{
    if pairs.len() == 0 {
        None
    } else if pairs.last().0 == key {
        Some(pairs.last().1)
    } else {
        last_value_for(pairs.drop_last(), key)
    }
}

/// The answer of the OAuth callback to a query string (absent or not): 400
/// when no `code` is given, otherwise 200 with the code and the state (empty
/// when absent); where a key is repeated, its last value counts.
pub open spec fn oauth_reply(query: Option<Seq<char>>) -> (u16, Seq<char>) {
    let pairs = match query {
        Some(q) => query_pairs(q),
        None => seq![],
    };
    match last_value_for(pairs, "code"@) {
        None => (400u16, "missing `code` query parameter"@),
        Some(code) => {
            let state = match last_value_for(pairs, "state"@) {
                Some(s) => s,
                None => Seq::<char>::empty(),
            };
            (200u16, "authorized: code="@ + code + ", state="@ + state)
        },
    }
}

/// The answer to a request with this method, path and query: `GET /healthz`
/// and `GET /oauth/callback` are answered, every other request is left to
/// the RPC dispatcher (`None`).
pub open spec fn route(method: Seq<char>, path: Seq<char>, query: Option<Seq<char>>) -> Option<
    (u16, Seq<char>),
> {
    if method == "GET"@ && path == "/healthz"@ {
        Some((200u16, "ok"@))
    } else if method == "GET"@ && path == "/oauth/callback"@ {
        Some(oauth_reply(query))
    } else {
        None
    }
}

/// The texts of a list of pairs of strings.
pub open spec fn pairs_view(pairs: Seq<(String, String)>) -> Seq<(Seq<char>, Seq<char>)> {
    pairs.map_values(|p: (String, String)| (p.0@, p.1@))
}

/// The text of an optional string.
pub open spec fn opt_view(s: Option<String>) -> Option<Seq<char>> {
    match s {
        Some(t) => Some(t@),
        None => None,
    }
}

/// The text of an optional string slice.
pub open spec fn opt_str_view(s: Option<&str>) -> Option<Seq<char>> {
    match s {
        Some(t) => Some(t@),
        None => None,
    }
}

/// The pieces joined back together with `sep` between them.
pub open spec fn join_with(pieces: Seq<Seq<char>>, sep: char) -> Seq<char>
    decreases pieces.len(),
{
    if pieces.len() <= 1 {
        if pieces.len() == 1 {
            pieces[0]
        } else {
            Seq::<char>::empty()
        }
    } else {
        join_with(pieces.drop_last(), sep).push(sep) + pieces.last()
    }
}

/// Splitting at `sep` loses nothing and keeps `sep` out of every piece:
/// joining the pieces with `sep` gives back the text.
pub proof fn split_on_pieces_rejoin(s: Seq<char>, sep: char)
    ensures
        split_on(s, sep).len() >= 1,
        join_with(split_on(s, sep), sep) == s,
        forall|i: int, j: int|
            0 <= i < split_on(s, sep).len() && 0 <= j < split_on(s, sep)[i].len() ==> #[trigger] split_on(
                s,
                sep,
            )[i][j] != sep,
    decreases s.len(),
{
    if s.len() > 0 {
        let init = s.drop_last();
        split_on_pieces_rejoin(init, sep);
        let p = split_on(init, sep);
        let q = split_on(s, sep);
        if s.last() == sep {
            assert(q == p.push(Seq::<char>::empty()));
            assert(q.drop_last() =~= p);
            assert(join_with(q, sep) =~= join_with(p, sep).push(sep));
            assert(s =~= init.push(sep));
            assert forall|i: int, j: int| 0 <= i < q.len() && 0 <= j < q[i].len() implies #[trigger] q[i][j]
                != sep by {
                assert(q[i] == p[i]);
            }
        } else {
            let n = p.len() - 1;
            assert(q == p.update(n, p.last().push(s.last())));
            assert(q.drop_last() =~= p.drop_last());
            assert forall|i: int, j: int| 0 <= i < q.len() && 0 <= j < q[i].len() implies #[trigger] q[i][j]
                != sep by {
                if i < n {
                    assert(q[i] == p[i]);
                } else if j < p[n].len() {
                    assert(q[i][j] == p[n][j]);
                }
            }
            if p.len() == 1 {
                assert(join_with(q, sep) == q[0]);
                assert(q[0] =~= init.push(s.last()));
                assert(s =~= init.push(s.last()));
            } else {
                assert(join_with(p, sep) == join_with(p.drop_last(), sep).push(sep) + p.last());
                assert(join_with(q, sep) == join_with(q.drop_last(), sep).push(sep) + q.last());
                assert(join_with(q, sep) =~= join_with(p, sep).push(s.last()));
                assert(s =~= init.push(s.last()));
            }
        }
    }
}

/// Splitting at the first `c`: the key holds no `c`, and key, `c` and value
/// together give back the text; there is no split exactly when the text
/// holds no `c`.
pub proof fn split_once_splits_at_the_first(s: Seq<char>, c: char)
    ensures
        split_once(s, c) is None <==> !s.contains(c),
        split_once(s, c) matches Some(kv) ==> {
            &&& !kv.0.contains(c)
            &&& s == kv.0.push(c) + kv.1
        },
{
    if s.contains(c) {
        let w = choose|j: int| 0 <= j < s.len() && s[j] == c;
        first_index_exists(s, c, w);
        let i = choose|i: int| is_first_index(s, c, i);
        assert(is_first_index(s, c, i));
        let key = s.take(i);
        assert(s =~= key.push(c) + s.skip(i + 1));
        assert(!key.contains(c)) by {
            if key.contains(c) {
                let j = choose|j: int| 0 <= j < key.len() && key[j] == c;
                assert(s[j] == c);
            }
        }
    }
}

/// Each further piece adds its key/value split at its first `=` to the
/// pairs, and a piece without `=` adds nothing: no piece that holds an `=`
/// is dropped, whatever its key or value.
pub proof fn pairs_of_push(pieces: Seq<Seq<char>>, piece: Seq<char>)
    ensures
        pairs_of(pieces.push(piece)) == match split_once(piece, '=') {
            Some(kv) => pairs_of(pieces).push(kv),
            None => pairs_of(pieces),
        },
        piece.contains('=') ==> pairs_of(pieces.push(piece)).len() == pairs_of(pieces).len() + 1,
        !piece.contains('=') ==> pairs_of(pieces.push(piece)) == pairs_of(pieces),
{
    assert(pieces.push(piece).drop_last() =~= pieces);
    split_once_splits_at_the_first(piece, '=');
}

/// A text holding `c` at `w` has a first `c`.
proof fn first_index_exists(s: Seq<char>, c: char, w: int)
    requires
        0 <= w < s.len(),
        s[w] == c,
    ensures
        exists|i: int| is_first_index(s, c, i),
    decreases w,
{
    if exists|j: int| 0 <= j < w && s[j] == c {
        let j = choose|j: int| 0 <= j < w && s[j] == c;
        first_index_exists(s, c, j);
    } else {
        assert(is_first_index(s, c, w));
    }
}

/// `i` is the position of the last pair in `pairs` whose key is `key`.
pub open spec fn is_last_key_index(pairs: Seq<(Seq<char>, Seq<char>)>, key: Seq<char>, i: int) -> bool {
    &&& 0 <= i < pairs.len()
    &&& pairs[i].0 == key
    &&& forall|j: int| i < j < pairs.len() ==> (#[trigger] pairs[j]).0 != key
}

/// No pair in `pairs` has key `key`.
pub open spec fn lacks_key(pairs: Seq<(Seq<char>, Seq<char>)>, key: Seq<char>) -> bool {
    forall|j: int| 0 <= j < pairs.len() ==> (#[trigger] pairs[j]).0 != key
}

/// The value looked up for a key is the value of the last pair with that
/// key, whatever pairs with other keys stand around it; there is none
/// exactly when no pair has the key.
pub proof fn last_value_is_the_last_match(pairs: Seq<(Seq<char>, Seq<char>)>, key: Seq<char>)
    ensures
        lacks_key(pairs, key) <==> last_value_for(pairs, key) is None,
        forall|i: int|
            #[trigger] is_last_key_index(pairs, key, i) ==> last_value_for(pairs, key) == Some(
                pairs[i].1,
            ),
    decreases pairs.len(),
{
    if pairs.len() > 0 {
        let init = pairs.drop_last();
        last_value_is_the_last_match(init, key);
        let n = pairs.len() - 1;
        assert forall|i: int| #[trigger] is_last_key_index(pairs, key, i) implies last_value_for(
            pairs,
            key,
        ) == Some(pairs[i].1) by {
            if i < n {
                assert(pairs[n].0 != key);
                assert(is_last_key_index(init, key, i)) by {
                    assert forall|j: int| i < j < init.len() implies (#[trigger] init[j]).0 != key by {
                        assert(init[j] == pairs[j]);
                    }
                }
            }
        }
        if lacks_key(pairs, key) {
            assert(pairs[n].0 != key);
            assert(lacks_key(init, key)) by {
                assert forall|j: int| 0 <= j < init.len() implies (#[trigger] init[j]).0 != key by {
                    assert(init[j] == pairs[j]);
                }
            }
        }
        if last_value_for(pairs, key) is None {
            assert(pairs.last().0 != key);
            assert forall|j: int| 0 <= j < pairs.len() implies (#[trigger] pairs[j]).0 != key by {
                if j < n {
                    assert(init[j] == pairs[j]);
                }
            }
        }
    }
}

/// A pair added at the end decides the value of its own key and leaves
/// every other key's value as it was.
pub proof fn last_value_after_push(
    pairs: Seq<(Seq<char>, Seq<char>)>,
    k: Seq<char>,
    v: Seq<char>,
    key: Seq<char>,
)
    ensures
        last_value_for(pairs.push((k, v)), key) == if k == key {
            Some(v)
        } else {
            last_value_for(pairs, key)
        },
{
    assert(pairs.push((k, v)).drop_last() =~= pairs);
}

/// The OAuth callback answers 400 when no pair of the query has the key
/// `code`; otherwise 200 with the value of the last `code` pair and the
/// value of the last `state` pair (empty when there is none), in whatever
/// order the pairs come.
pub proof fn oauth_reply_uses_the_last_values(query: Seq<char>)
    ensures
        ({
            let pairs = query_pairs(query);
            &&& lacks_key(pairs, "code"@) ==> oauth_reply(Some(query)) == (
                400u16,
                "missing `code` query parameter"@,
            )
            &&& forall|i: int, j: int|
                #[trigger] is_last_key_index(pairs, "code"@, i) && #[trigger] is_last_key_index(
                    pairs,
                    "state"@,
                    j,
                ) ==> oauth_reply(Some(query)) == (
                    200u16,
                    "authorized: code="@ + pairs[i].1 + ", state="@ + pairs[j].1,
                )
            &&& forall|i: int|
                #[trigger] is_last_key_index(pairs, "code"@, i) && lacks_key(pairs, "state"@)
                    ==> oauth_reply(Some(query)) == (
                    200u16,
                    "authorized: code="@ + pairs[i].1 + ", state="@,
                )
        }),
{
    let pairs = query_pairs(query);
    last_value_is_the_last_match(pairs, "code"@);
    last_value_is_the_last_match(pairs, "state"@);
    assert forall|i: int|
        #[trigger] is_last_key_index(pairs, "code"@, i) && lacks_key(pairs, "state"@) implies oauth_reply(
        Some(query),
    ) == (200u16, "authorized: code="@ + pairs[i].1 + ", state="@) by {
        assert("authorized: code="@ + pairs[i].1 + ", state="@ + Seq::<char>::empty() =~= "authorized: code="@
            + pairs[i].1 + ", state="@);
    }
}

/// Exactly two requests are answered by the plain routes, `GET /healthz`
/// (200 `ok`) and `GET /oauth/callback`; every other method or path is left
/// to the RPC dispatcher.
pub proof fn only_two_routes_are_answered(
    method: Seq<char>,
    path: Seq<char>,
    query: Option<Seq<char>>,
)
    ensures
        route(method, path, query) is Some <==> method == "GET"@ && (path == "/healthz"@ || path
            == "/oauth/callback"@),
        method == "GET"@ && path == "/healthz"@ ==> route(method, path, query) == Some(
            (200u16, "ok"@),
        ),
        method == "GET"@ && path == "/oauth/callback"@ ==> route(method, path, query) == Some(
            oauth_reply(query),
        ),
{
    reveal_strlit("/healthz");
    reveal_strlit("/oauth/callback");
    assert("/healthz"@.len() != "/oauth/callback"@.len());
}

/// Whether two texts are equal.
fn same_text(a: &str, b: &str) -> (r: bool)
    ensures
        r == (a@ == b@),
{
    let a_owned = String::from_str(a);
    let b_owned = String::from_str(b);
    a_owned == b_owned
}

/// The characters `chars[from..to]` as a string.
fn string_of(chars: &Vec<char>, from: usize, to: usize) -> (r: String)
    requires
        from <= to <= chars.len(),
    ensures
        r@ == chars@.subrange(from as int, to as int),
{
    let mut s = String::new();
    let mut k = from;
    while k < to
        invariant
            from <= k <= to <= chars.len(),
            s@ == chars@.subrange(from as int, k as int),
        decreases to - k,
    {
        push_char(&mut s, chars[k]);
        k = k + 1;
        assert(s@ =~= chars@.subrange(from as int, k as int));
    }
    s
}

/// `chars[from..to]` split at its first `=`.
fn split_pair(chars: &Vec<char>, from: usize, to: usize) -> (r: Option<(String, String)>)
    requires
        from <= to <= chars.len(),
    ensures
        match r {
            Some(p) => split_once(chars@.subrange(from as int, to as int), '=') == Some(
                (p.0@, p.1@),
            ),
            None => split_once(chars@.subrange(from as int, to as int), '=') is None,
        },
{
    let ghost seg = chars@.subrange(from as int, to as int);
    let mut k = from;
    while k < to && chars[k] != '='
        invariant
            from <= k <= to <= chars.len(),
            forall|j: int| from <= j < k ==> chars@[j] != '=',
        decreases to - k,
    {
        k = k + 1;
    }
    if k == to {
        assert(!seg.contains('=')) by {
            if seg.contains('=') {
                let j = choose|j: int| 0 <= j < seg.len() && seg[j] == '=';
                assert(chars@[from + j] == '=');
            }
        }
        None
    } else {
        let ghost w = (k - from) as int;
        assert(is_first_index(seg, '=', w)) by {
            assert forall|j: int| 0 <= j < w implies seg[j] != '=' by {
                assert(seg[j] == chars@[from + j]);
            }
        }
        assert(seg.contains('='));
        let ghost i = choose|i: int| is_first_index(seg, '=', i);
        assert(i == w) by {
            assert(is_first_index(seg, '=', i));
            if i < w {
                assert(seg[i] != '=');
            } else if i > w {
                assert(seg[w] != '=');
            }
        }
        let key = string_of(chars, from, k);
        let value = string_of(chars, k + 1, to);
        assert(key@ =~= seg.take(w));
        assert(value@ =~= seg.skip(w + 1));
        Some((key, value))
    }
}

/// The key/value pairs of a query string (see [`query_pairs`]).
pub fn parse_query(query: &str) -> (r: Vec<(String, String)>)
    ensures
        pairs_view(r@) == query_pairs(query@),
{
    let chars = chars_of(query);
    let mut pairs: Vec<(String, String)> = Vec::new();
    let ghost mut pieces: Seq<Seq<char>> = seq![];
    let mut start: usize = 0;
    let mut i: usize = 0;
    assert(query@.take(0) =~= Seq::<char>::empty());
    assert(split_on(query@.take(0), '&') =~= pieces.push(query@.subrange(0, 0)));
    while i < chars.len()
        invariant
            chars@ == query@,
            start <= i <= chars.len(),
            split_on(query@.take(i as int), '&') == pieces.push(
                query@.subrange(start as int, i as int),
            ),
            pairs_view(pairs@) == pairs_of(pieces),
        decreases chars.len() - i,
    {
        let ghost before = query@.take(i as int);
        assert(query@.take(i + 1).drop_last() =~= before);
        assert(query@.take(i + 1).last() == chars@[i as int]);
        if chars[i] == '&' {
            let ghost piece = query@.subrange(start as int, i as int);
            let found = split_pair(&chars, start, i);
            match found {
                Some(p) => {
                    pairs.push(p);
                },
                None => {},
            }
            proof {
                let next = pieces.push(piece);
                assert(next.drop_last() =~= pieces);
                assert(pairs_view(pairs@) =~= pairs_of(next));
                pieces = next;
                assert(query@.subrange((i + 1) as int, (i + 1) as int) =~= Seq::<char>::empty());
            }
            start = i + 1;
        } else {
            assert(query@.subrange(start as int, i + 1) =~= query@.subrange(
                start as int,
                i as int,
            ).push(chars@[i as int]));
        }
        i = i + 1;
        assert(split_on(query@.take(i as int), '&') =~= pieces.push(
            query@.subrange(start as int, i as int),
        ));
    }
    let ghost piece = query@.subrange(start as int, chars.len() as int);
    let found = split_pair(&chars, start, chars.len());
    match found {
        Some(p) => {
            pairs.push(p);
        },
        None => {},
    }
    proof {
        let all = pieces.push(piece);
        assert(all.drop_last() =~= pieces);
        assert(pairs_view(pairs@) =~= pairs_of(all));
        assert(query@.take(query@.len() as int) =~= query@);
    }
    pairs
}

/// The OAuth callback's answer to a query string (see [`oauth_reply`]).
pub fn oauth_callback(query: Option<&str>) -> (r: RouteReply)
    ensures
        (r.status, r.body@) == oauth_reply(opt_str_view(query)),
{
    let pairs = match query {
        Some(q) => parse_query(q),
        None => Vec::new(),
    };
    let ghost pv = pairs_view(pairs@);
    assert(pv == match opt_str_view(query) {
        Some(q) => query_pairs(q),
        None => seq![],
    }) by {
        if query is None {
            assert(pv =~= seq![]);
        }
    }
    let code_key = String::from_str("code");
    let state_key = String::from_str("state");
    let mut code: Option<String> = None;
    let mut state: Option<String> = None;
    let mut idx: usize = 0;
    proof {
        reveal_strlit("code");
        reveal_strlit("state");
        assert("code"@ != "state"@) by {
            assert("code"@.len() != "state"@.len());
        }
    }
    while idx < pairs.len()
        invariant
            "code"@ != "state"@,
            pv == pairs_view(pairs@),
            idx <= pairs.len(),
            code_key@ == "code"@,
            state_key@ == "state"@,
            opt_view(code) == last_value_for(pv.take(idx as int), "code"@),
            opt_view(state) == last_value_for(pv.take(idx as int), "state"@),
        decreases pairs.len() - idx,
    {
        assert(pv.take(idx + 1).drop_last() =~= pv.take(idx as int));
        assert(pv.take(idx + 1).last() == pv[idx as int]);
        let (key, value) = (&pairs[idx].0, &pairs[idx].1);
        if *key == code_key {
            code = Some(value.clone());
        } else if *key == state_key {
            state = Some(value.clone());
        }
        idx = idx + 1;
    }
    assert(pv.take(pairs.len() as int) =~= pv);
    match code {
        None => RouteReply {
            status: STATUS_BAD_REQUEST,
            body: String::from_str("missing `code` query parameter"),
        },
        Some(c) => {
            let mut body = String::from_str("authorized: code=");
            body.append(c.as_str());
            body.append(", state=");
            match state {
                Some(s) => body.append(s.as_str()),
                None => {},
            }
            RouteReply { status: STATUS_OK, body }
        },
    }
}

/// The health check's answer: 200 `ok`.
pub fn healthz() -> (r: RouteReply)
    ensures
        r.status == 200,
        r.body@ == "ok"@,
{
    RouteReply { status: STATUS_OK, body: String::from_str("ok") }
}

/// Answers a request with this method, path and query when it is one of the
/// plain routes (see [`route`]); `None` leaves it to the RPC dispatcher.
pub fn try_handle(method: &str, path: &str, query: Option<&str>) -> (r: Option<RouteReply>)
    ensures
        match r {
            Some(reply) => route(method@, path@, opt_str_view(query)) == Some(
                (reply.status, reply.body@),
            ),
            None => route(method@, path@, opt_str_view(query)) is None,
        },
{
    if same_text(method, "GET") && same_text(path, "/healthz") {
        Some(healthz())
    } else if same_text(method, "GET") && same_text(path, "/oauth/callback") {
        Some(oauth_callback(query))
    } else {
        None
    }
}

} // verus!
