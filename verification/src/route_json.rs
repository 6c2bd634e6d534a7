use vstd::prelude::*;

use crate::agent_traits::{RouteObject, RouteView};
use crate::general::{char_from_u32, chars_of, is_unicode_scalar, push_char};

verus! {

// ---------------------------------------------------------------------------
// The wire format of an endpoint schema: a JSON array of objects, each with
// the three string members `route`, `method` and `is_route_dynamic`, in that
// order (the member order is part of the wire contract, fixed in lockstep
// with the prompt that asks the generation step for it). The writer emits
// the canonical form below; the reader also accepts whitespace between
// tokens and the standard JSON string escapes.
// ---------------------------------------------------------------------------
/// One character of JSON string content as the writer emits it.
pub open spec fn esc1(c: char) -> Seq<char> {
    if c == '"' || c == '\\' {
        seq!['\\', c]
    } else {
        seq![c]
    }
}

/// JSON string content: quotes and backslashes are escaped.
pub open spec fn escaped(s: Seq<char>) -> Seq<char>
    decreases s.len(),
{
    if s.len() == 0 {
        Seq::empty()
    } else {
        esc1(s[0]) + escaped(s.skip(1))
    }
}

/// A JSON string literal: escaped content between double quotes.
pub open spec fn quoted(s: Seq<char>) -> Seq<char> {
    "\""@ + escaped(s) + "\""@
}

/// The canonical JSON text of one route object.
pub open spec fn route_json(r: RouteView) -> Seq<char> {
    "{\"route\":"@ + quoted(r.route) + ",\"method\":"@ + quoted(r.method)
        + ",\"is_route_dynamic\":"@ + quoted(r.is_route_dynamic) + "}"@
}

/// The comma-separated bodies of a route array.
pub open spec fn routes_json_body(rs: Seq<RouteView>) -> Seq<char>
    decreases rs.len(),
{
    if rs.len() == 0 {
        Seq::empty()
    } else if rs.len() == 1 {
        route_json(rs[0])
    } else {
        route_json(rs[0]) + ","@ + routes_json_body(rs.skip(1))
    }
}

/// The canonical JSON text of a whole endpoint schema.
pub open spec fn routes_json(rs: Seq<RouteView>) -> Seq<char> {
    "["@ + routes_json_body(rs) + "]"@
}

proof fn lemma_escaped_push(s: Seq<char>, c: char)
    ensures
        escaped(s.push(c)) == escaped(s) + esc1(c),
    decreases s.len(),
{
    if s.len() == 0 {
        assert(s.push(c)[0] == c);
        assert(s.push(c).skip(1) =~= Seq::<char>::empty());
        assert(escaped(s.push(c)) == esc1(c) + escaped(Seq::<char>::empty()));
        assert(esc1(c) + Seq::<char>::empty() =~= esc1(c));
        assert(escaped(s) =~= Seq::<char>::empty());
        assert(Seq::<char>::empty() + esc1(c) =~= esc1(c));
    } else {
        lemma_escaped_push(s.skip(1), c);
        assert(s.push(c)[0] == s[0]);
        assert(s.push(c).skip(1) =~= s.skip(1).push(c));
        assert(escaped(s.push(c)) =~= escaped(s) + esc1(c));
    }
}

proof fn lemma_routes_json_body_push(rs: Seq<RouteView>, r: RouteView)
    ensures
        rs.len() == 0 ==> routes_json_body(rs.push(r)) == route_json(r),
        rs.len() > 0 ==> routes_json_body(rs.push(r)) == routes_json_body(rs) + ","@ + route_json(
            r,
        ),
    decreases rs.len(),
{
    reveal_strlit(",");
    if rs.len() == 0 {
        assert(rs.push(r)[0] == r);
    } else if rs.len() == 1 {
        assert(rs.push(r)[0] == rs[0]);
        assert(rs.push(r).skip(1) =~= seq![r]);
        assert(routes_json_body(seq![r]) == route_json(r));
        assert(routes_json_body(rs.push(r)) =~= routes_json_body(rs) + ","@ + route_json(r));
    } else {
        lemma_routes_json_body_push(rs.skip(1), r);
        assert(rs.push(r)[0] == rs[0]);
        assert(rs.push(r).skip(1) =~= rs.skip(1).push(r));
        assert(routes_json_body(rs.push(r)) =~= routes_json_body(rs) + ","@ + route_json(r));
    }
}

/// Appends `quoted(s@)` to `out`.
pub(crate) fn append_quoted(out: &mut String, s: &String)
    ensures
        final(out)@ == old(out)@ + quoted(s@),
{
    proof {
        reveal_strlit("\"");
    }
    push_char(out, '"');
    let v: Vec<char> = chars_of(s.as_str());
    let mut i: usize = 0;
    proof {
        assert(escaped(s@.take(0)) =~= Seq::<char>::empty());
        assert(out@ =~= old(out)@ + "\""@ + escaped(s@.take(0)));
    }
    while i < v.len()
        invariant
            v@ == s@,
            i <= v@.len(),
            out@ == old(out)@ + "\""@ + escaped(s@.take(i as int)),
        decreases v@.len() - i,
    {
        let c = v[i];
        if c == '"' || c == '\\' {
            push_char(out, '\\');
        }
        push_char(out, c);
        proof {
            lemma_escaped_push(s@.take(i as int), c);
            assert(s@.take(i as int).push(c) =~= s@.take(i as int + 1));
            assert(out@ =~= old(out)@ + "\""@ + escaped(s@.take(i as int + 1)));
        }
        i = i + 1;
    }
    push_char(out, '"');
    proof {
        assert(s@.take(s@.len() as int) =~= s@);
        assert(out@ =~= old(out)@ + quoted(s@));
    }
}

/// Appends `route_json(r@)` to `out`.
fn append_route(out: &mut String, r: &RouteObject)
    ensures
        final(out)@ == old(out)@ + route_json(r@),
{
    out.append("{\"route\":");
    append_quoted(out, &r.route);
    out.append(",\"method\":");
    append_quoted(out, &r.method);
    out.append(",\"is_route_dynamic\":");
    append_quoted(out, &r.is_route_dynamic);
    out.append("}");
    proof {
        assert(out@ =~= old(out)@ + route_json(r@));
    }
}

/// The canonical JSON text of an endpoint schema, as written to the
/// artifacts path.
pub fn encode_routes(routes: &Vec<RouteObject>) -> (out: String)
    ensures
        out@ == routes_json(routes.deep_view()),
{
    let mut out: String = String::from_str("[");
    let mut i: usize = 0;
    proof {
        assert(routes.deep_view().take(0) =~= Seq::<RouteView>::empty());
        assert(out@ =~= "["@ + routes_json_body(routes.deep_view().take(0)));
    }
    while i < routes.len()
        invariant
            i <= routes@.len(),
            routes.deep_view().len() == routes@.len(),
            out@ == "["@ + routes_json_body(routes.deep_view().take(i as int)),
        decreases routes@.len() - i,
    {
        if i > 0 {
            out.append(",");
        }
        append_route(&mut out, &routes[i]);
        proof {
            lemma_routes_json_body_push(routes.deep_view().take(i as int), routes@[i as int]@);
            assert(routes.deep_view().take(i as int).push(routes@[i as int]@)
                =~= routes.deep_view().take(i as int + 1));
            assert(out@ =~= "["@ + routes_json_body(routes.deep_view().take(i as int + 1)));
        }
        i = i + 1;
    }
    out.append("]");
    proof {
        assert(routes.deep_view().take(routes@.len() as int) =~= routes.deep_view());
        assert(out@ =~= routes_json(routes.deep_view()));
    }
    out
}

// ---------------------------------------------------------------------------
// Reading the wire format back. The spec parser below fixes the meaning of
// every input; the executable parser returns exactly what it says.
// ---------------------------------------------------------------------------
/// JSON whitespace.
pub open spec fn is_ws(c: char) -> bool {
    c == ' ' || c == '\n' || c == '\r' || c == '\t'
}

/// The first position at or after `i` holding no whitespace.
pub open spec fn spec_skip_ws(s: Seq<char>, i: int) -> int
    decreases s.len() - i,
{
    if 0 <= i < s.len() && is_ws(s[i]) {
        spec_skip_ws(s, i + 1)
    } else {
        i
    }
}

/// Consumes `lit` verbatim at position `i`.
pub open spec fn spec_expect(s: Seq<char>, i: int, lit: Seq<char>) -> Option<int> {
    if 0 <= i && i + lit.len() <= s.len() && s.subrange(i, i + lit.len()) == lit {
        Some(i + lit.len())
    } else {
        None
    }
}

/// The character a single-character JSON escape stands for.
pub open spec fn esc_char(e: char) -> Option<char> {
    if e == '"' {
        Some('"')
    } else if e == '\\' {
        Some('\\')
    } else if e == '/' {
        Some('/')
    } else if e == 'b' {
        Some('\u{0008}')
    } else if e == 'f' {
        Some('\u{000C}')
    } else if e == 'n' {
        Some('\n')
    } else if e == 'r' {
        Some('\r')
    } else if e == 't' {
        Some('\t')
    } else {
        None
    }
}

/// The numeric value of one hexadecimal digit.
pub open spec fn hex_val(c: char) -> Option<int> {
    let n = (c as u32) as int;
    if 48 <= n <= 57 {
        Some(n - 48)
    } else if 97 <= n <= 102 {
        Some(n - 87)
    } else if 65 <= n <= 70 {
        Some(n - 55)
    } else {
        None
    }
}

/// The code point written by four hexadecimal digits at position `i`.
pub open spec fn spec_hex4(s: Seq<char>, i: int) -> Option<int> {
    if 0 <= i && i + 4 <= s.len() {
        match (hex_val(s[i]), hex_val(s[i + 1]), hex_val(s[i + 2]), hex_val(s[i + 3])) {
            (Some(a), Some(b), Some(c), Some(d)) => Some(a * 4096 + b * 256 + c * 16 + d),
            _ => None,
        }
    } else {
        None
    }
}

pub open spec fn is_high_surrogate(n: int) -> bool {
    0xD800 <= n <= 0xDBFF
}

pub open spec fn is_low_surrogate(n: int) -> bool {
    0xDC00 <= n <= 0xDFFF
}

/// The code point a UTF-16 surrogate pair stands for.
pub open spec fn combine_surrogates(hi: int, lo: int) -> int {
    0x10000 + (hi - 0xD800) * 0x400 + (lo - 0xDC00)
}

/// String content and the position after its closing quote, starting just
/// inside the opening quote. The standard escapes are understood: the
/// single-character ones and `\u` with four hex digits, surrogate pairs
/// included.
#[verifier::opaque]
pub open spec fn spec_parse_string_body(s: Seq<char>, i: int) -> Option<(Seq<char>, int)>
    decreases s.len() - i,
{
    if i < 0 || i >= s.len() {
        None
    } else if s[i] == '"' {
        Some((Seq::empty(), i + 1))
    } else if s[i] == '\\' {
        if i + 1 < s.len() {
            if s[i + 1] == 'u' {
                match spec_hex4(s, i + 2) {
                    None => None,
                    Some(n) => if is_high_surrogate(n) {
                        if i + 7 < s.len() && s[i + 6] == '\\' && s[i + 7] == 'u' {
                            match spec_hex4(s, i + 8) {
                                None => None,
                                Some(n2) => if is_low_surrogate(n2) {
                                    match spec_parse_string_body(s, i + 12) {
                                        Some((t, j)) => Some(
                                            (seq![combine_surrogates(n, n2) as char] + t, j),
                                        ),
                                        None => None,
                                    }
                                } else {
                                    None
                                },
                            }
                        } else {
                            None
                        }
                    } else if is_low_surrogate(n) {
                        None
                    } else {
                        match spec_parse_string_body(s, i + 6) {
                            Some((t, j)) => Some((seq![n as char] + t, j)),
                            None => None,
                        }
                    },
                }
            } else {
                match esc_char(s[i + 1]) {
                    Some(c) => match spec_parse_string_body(s, i + 2) {
                        Some((t, j)) => Some((seq![c] + t, j)),
                        None => None,
                    },
                    None => None,
                }
            }
        } else {
            None
        }
    } else {
        match spec_parse_string_body(s, i + 1) {
            Some((t, j)) => Some((seq![s[i]] + t, j)),
            None => None,
        }
    }
}

/// A JSON string literal at position `i`.
pub open spec fn spec_parse_string(s: Seq<char>, i: int) -> Option<(Seq<char>, int)> {
    if 0 <= i < s.len() && s[i] == '"' {
        spec_parse_string_body(s, i + 1)
    } else {
        None
    }
}

/// A `"key": "value"` member, with whitespace allowed around the tokens.
pub open spec fn spec_parse_member(s: Seq<char>, i: int, key: Seq<char>) -> Option<
    (Seq<char>, int),
> {
    match spec_expect(s, spec_skip_ws(s, i), key) {
        None => None,
        Some(i2) => match spec_expect(s, spec_skip_ws(s, i2), ":"@) {
            None => None,
            Some(i4) => spec_parse_string(s, spec_skip_ws(s, i4)),
        },
    }
}

/// One route object at position `i`: the three members in canonical order.
pub open spec fn spec_parse_route(s: Seq<char>, i: int) -> Option<(RouteView, int)> {
    match spec_expect(s, spec_skip_ws(s, i), "{"@) {
        None => None,
        Some(i2) => match spec_parse_member(s, i2, "\"route\""@) {
            None => None,
            Some((route, i3)) => match spec_expect(s, spec_skip_ws(s, i3), ","@) {
                None => None,
                Some(i5) => match spec_parse_member(s, i5, "\"method\""@) {
                    None => None,
                    Some((method, i6)) => match spec_expect(s, spec_skip_ws(s, i6), ","@) {
                        None => None,
                        Some(i8) => match spec_parse_member(s, i8, "\"is_route_dynamic\""@) {
                            None => None,
                            Some((is_route_dynamic, i9)) => match spec_expect(
                                s,
                                spec_skip_ws(s, i9),
                                "}"@,
                            ) {
                                None => None,
                                Some(i11) => Some(
                                    (RouteView { route, method, is_route_dynamic }, i11),
                                ),
                            },
                        },
                    },
                },
            },
        },
    }
}

pub proof fn lemma_skip_ws_bounds(s: Seq<char>, i: int)
    ensures
        0 <= i <= s.len() ==> i <= spec_skip_ws(s, i) <= s.len(),
    decreases s.len() - i,
{
    if 0 <= i < s.len() && is_ws(s[i]) {
        lemma_skip_ws_bounds(s, i + 1);
    }
}

pub proof fn lemma_parse_string_body_bounds(s: Seq<char>, i: int)
    ensures
        spec_parse_string_body(s, i) matches Some((t, j)) ==> i < j <= s.len(),
    decreases s.len() - i,
{
    reveal(spec_parse_string_body);
    if 0 <= i < s.len() {
        if s[i] == '"' {
        } else if s[i] == '\\' {
            if i + 1 < s.len() {
                if s[i + 1] == 'u' {
                    if spec_hex4(s, i + 2) is Some {
                        let n = spec_hex4(s, i + 2)->0;
                        if is_high_surrogate(n) {
                            if i + 7 < s.len() && s[i + 6] == '\\' && s[i + 7] == 'u'
                                && spec_hex4(s, i + 8) is Some && is_low_surrogate(
                                spec_hex4(s, i + 8)->0,
                            ) {
                                lemma_parse_string_body_bounds(s, i + 12);
                            }
                        } else if !is_low_surrogate(n) {
                            lemma_parse_string_body_bounds(s, i + 6);
                        }
                    }
                } else if esc_char(s[i + 1]) is Some {
                    lemma_parse_string_body_bounds(s, i + 2);
                }
            }
        } else {
            lemma_parse_string_body_bounds(s, i + 1);
        }
    }
}

pub proof fn lemma_parse_member_bounds(s: Seq<char>, i: int, key: Seq<char>)
    ensures
        0 <= i <= s.len() ==> (spec_parse_member(s, i, key) matches Some((t, j)) ==> i < j
            <= s.len()),
{
    lemma_skip_ws_bounds(s, i);
    let i1 = spec_skip_ws(s, i);
    if 0 <= i <= s.len() && spec_expect(s, i1, key) is Some {
        let i2 = spec_expect(s, i1, key)->0;
        lemma_skip_ws_bounds(s, i2);
        let i3 = spec_skip_ws(s, i2);
        if spec_expect(s, i3, ":"@) is Some {
            let i4 = spec_expect(s, i3, ":"@)->0;
            lemma_skip_ws_bounds(s, i4);
            lemma_parse_string_body_bounds(s, spec_skip_ws(s, i4) + 1);
        }
    }
}

pub proof fn lemma_parse_route_bounds(s: Seq<char>, i: int)
    ensures
        0 <= i <= s.len() ==> (spec_parse_route(s, i) matches Some((r, j)) ==> i < j <= s.len()),
{
    if 0 <= i <= s.len() {
        lemma_skip_ws_bounds(s, i);
        let i1 = spec_skip_ws(s, i);
        if spec_expect(s, i1, "{"@) is Some {
            let i2 = spec_expect(s, i1, "{"@)->0;
            lemma_parse_member_bounds(s, i2, "\"route\""@);
            if spec_parse_member(s, i2, "\"route\""@) is Some {
                let i3 = (spec_parse_member(s, i2, "\"route\""@)->0).1;
                lemma_skip_ws_bounds(s, i3);
                if spec_expect(s, spec_skip_ws(s, i3), ","@) is Some {
                    let i5 = spec_expect(s, spec_skip_ws(s, i3), ","@)->0;
                    lemma_parse_member_bounds(s, i5, "\"method\""@);
                    if spec_parse_member(s, i5, "\"method\""@) is Some {
                        let i6 = (spec_parse_member(s, i5, "\"method\""@)->0).1;
                        lemma_skip_ws_bounds(s, i6);
                        if spec_expect(s, spec_skip_ws(s, i6), ","@) is Some {
                            let i8 = spec_expect(s, spec_skip_ws(s, i6), ","@)->0;
                            lemma_parse_member_bounds(s, i8, "\"is_route_dynamic\""@);
                            if spec_parse_member(s, i8, "\"is_route_dynamic\""@) is Some {
                                let i9 = (spec_parse_member(s, i8, "\"is_route_dynamic\""@)->0).1;
                                lemma_skip_ws_bounds(s, i9);
                            }
                        }
                    }
                }
            }
        }
    }
}

/// The routes after the first one: `("," route)* "]"`, whitespace allowed.
pub open spec fn spec_parse_routes_rest(s: Seq<char>, i: int) -> Option<(Seq<RouteView>, int)>
    decreases s.len() - i,
    via spec_parse_routes_rest_decreases
{
    if i < 0 || i > s.len() {
        None
    } else {
        let i1 = spec_skip_ws(s, i);
        match spec_expect(s, i1, "]"@) {
            Some(i2) => Some((Seq::empty(), i2)),
            None => match spec_expect(s, i1, ","@) {
                None => None,
                Some(i2) => match spec_parse_route(s, i2) {
                    None => None,
                    Some((r, j)) => match spec_parse_routes_rest(s, j) {
                        None => None,
                        Some((rest, k)) => Some((seq![r] + rest, k)),
                    },
                },
            },
        }
    }
}

#[via_fn]
proof fn spec_parse_routes_rest_decreases(s: Seq<char>, i: int) {
    lemma_skip_ws_bounds(s, i);
    let i1 = spec_skip_ws(s, i);
    if spec_expect(s, i1, ","@) is Some {
        lemma_parse_route_bounds(s, spec_expect(s, i1, ","@)->0);
    }
}

/// A whole endpoint schema: `[` then either `]` or routes separated by
/// commas, then `]`, then nothing but whitespace to the end of the input.
pub open spec fn spec_parse_routes(s: Seq<char>) -> Option<Seq<RouteView>> {
    match spec_expect(s, spec_skip_ws(s, 0), "["@) {
        None => None,
        Some(i2) => {
            let i3 = spec_skip_ws(s, i2);
            match spec_expect(s, i3, "]"@) {
                Some(i4) => if spec_skip_ws(s, i4) == s.len() {
                    Some(Seq::empty())
                } else {
                    None
                },
                None => match spec_parse_route(s, i2) {
                    None => None,
                    Some((r, j)) => match spec_parse_routes_rest(s, j) {
                        None => None,
                        Some((rest, k)) => if spec_skip_ws(s, k) == s.len() {
                            Some(seq![r] + rest)
                        } else {
                            None
                        },
                    },
                },
            }
        },
    }
}

pub(crate) // ---------------------------------------------------------------------------
// Round trip: text written by the encoder above means, to the parser, the
// routes it was written from. Each lemma walks one grammar production.
// ---------------------------------------------------------------------------
proof fn lemma_expect_here(s: Seq<char>, i: int, lit: Seq<char>)
    requires
        0 <= i,
        i + lit.len() <= s.len(),
        forall|k: int| 0 <= k < lit.len() ==> s[i + k] == lit[k],
    ensures
        spec_expect(s, i, lit) == Some(i + lit.len()),
{
    assert(s.subrange(i, i + lit.len()) =~= lit);
}

proof fn lemma_expect_not_here(s: Seq<char>, i: int, lit: Seq<char>)
    requires
        0 <= i < s.len(),
        lit.len() > 0,
        s[i] != lit[0],
    ensures
        spec_expect(s, i, lit) is None,
{
    if i + lit.len() <= s.len() {
        assert(s.subrange(i, i + lit.len())[0] == s[i]);
        assert(s.subrange(i, i + lit.len()) != lit);
    }
}

proof fn lemma_parse_body_at(s: Seq<char>, i: int, x: Seq<char>)
    requires
        0 <= i,
        i + escaped(x).len() + 1 <= s.len(),
        forall|k: int| 0 <= k < escaped(x).len() ==> s[i + k] == escaped(x)[k],
        s[i + escaped(x).len()] == '"',
    ensures
        spec_parse_string_body(s, i) == Some((x, i + escaped(x).len() + 1)),
    decreases x.len(),
{
    reveal(spec_parse_string_body);
    if x.len() == 0 {
        assert(escaped(x).len() == 0);
        assert(s[i] == '"');
        assert(x =~= Seq::<char>::empty());
    } else {
        let c = x[0];
        let rest = x.skip(1);
        assert(escaped(x) == esc1(c) + escaped(rest));
        if c == '"' || c == '\\' {
            assert(escaped(x)[0] == '\\');
            assert(escaped(x)[1] == c);
            assert(s[i] == '\\');
            assert(s[i + 1] == c);
            assert(esc_char(c) == Some(c));
            assert forall|k: int| 0 <= k < escaped(rest).len() implies s[i + 2 + k] == escaped(
                rest,
            )[k] by {
                assert(escaped(x)[2 + k] == escaped(rest)[k]);
            }
            assert(s[i + 2 + escaped(rest).len()] == '"');
            lemma_parse_body_at(s, i + 2, rest);
            assert(seq![esc_char(s[i + 1])->0] + rest =~= x);
        } else {
            assert(escaped(x)[0] == c);
            assert(s[i] == c);
            assert forall|k: int| 0 <= k < escaped(rest).len() implies s[i + 1 + k] == escaped(
                rest,
            )[k] by {
                assert(escaped(x)[1 + k] == escaped(rest)[k]);
            }
            assert(s[i + 1 + escaped(rest).len()] == '"');
            lemma_parse_body_at(s, i + 1, rest);
            assert(seq![s[i]] + rest =~= x);
        }
    }
}

proof fn lemma_parse_string_at(s: Seq<char>, i: int, x: Seq<char>)
    requires
        0 <= i,
        i + quoted(x).len() <= s.len(),
        forall|k: int| 0 <= k < quoted(x).len() ==> s[i + k] == quoted(x)[k],
    ensures
        spec_parse_string(s, i) == Some((x, i + quoted(x).len())),
{
    reveal_strlit("\"");
    assert(quoted(x)[0] == '"');
    assert(s[i] == '"');
    assert forall|k: int| 0 <= k < escaped(x).len() implies s[i + 1 + k] == escaped(x)[k] by {
        assert(quoted(x)[1 + k] == escaped(x)[k]);
    }
    assert(quoted(x)[1 + escaped(x).len() as int] == '"');
    assert(s[i + 1 + escaped(x).len()] == '"');
    lemma_parse_body_at(s, i + 1, x);
}

proof fn lemma_parse_member_at(s: Seq<char>, i: int, key: Seq<char>, x: Seq<char>)
    requires
        0 <= i,
        key.len() > 0,
        !is_ws(key[0]),
        i + key.len() + 1 + quoted(x).len() <= s.len(),
        forall|k: int| 0 <= k < key.len() ==> s[i + k] == key[k],
        s[i + key.len()] == ':',
        forall|k: int| 0 <= k < quoted(x).len() ==> s[i + key.len() + 1 + k] == quoted(x)[k],
    ensures
        spec_parse_member(s, i, key) == Some((x, i + key.len() + 1 + quoted(x).len())),
{
    reveal_strlit(":");
    reveal_strlit("\"");
    assert(s[i] == key[0]);
    assert(spec_skip_ws(s, i) == i);
    lemma_expect_here(s, i, key);
    let i2 = i + key.len();
    assert(s[i2] == ':' && !is_ws(s[i2]));
    assert(spec_skip_ws(s, i2) == i2);
    assert(":"@.len() == 1 && ":"@[0] == ':');
    lemma_expect_here(s, i2, ":"@);
    let i4 = i2 + 1;
    assert(quoted(x)[0] == '"');
    assert(s[i4] == '"' && !is_ws(s[i4]));
    assert(spec_skip_ws(s, i4) == i4);
    lemma_parse_string_at(s, i4, x);
}

proof fn lemma_parse_route_at(s: Seq<char>, i: int, r: RouteView)
    requires
        0 <= i,
        i + route_json(r).len() <= s.len(),
        forall|k: int| 0 <= k < route_json(r).len() ==> s[i + k] == route_json(r)[k],
    ensures
        spec_parse_route(s, i) == Some((r, i + route_json(r).len())),
{
    reveal_strlit("{\"route\":");
    reveal_strlit(",\"method\":");
    reveal_strlit(",\"is_route_dynamic\":");
    reveal_strlit("}");
    reveal_strlit("{");
    reveal_strlit(",");
    reveal_strlit("\"route\"");
    reveal_strlit("\"method\"");
    reveal_strlit("\"is_route_dynamic\"");
    let rj = route_json(r);
    let q1 = quoted(r.route);
    let q2 = quoted(r.method);
    let q3 = quoted(r.is_route_dynamic);
    let n1 = q1.len() as int;
    let n2 = q2.len() as int;
    let n3 = q3.len() as int;
    assert(rj.len() == 9 + n1 + 10 + n2 + 20 + n3 + 1);
    // Entry: '{'.
    assert(rj[0] == '{');
    assert(s[i] == '{' && !is_ws(s[i]));
    assert(spec_skip_ws(s, i) == i);
    assert("{"@.len() == 1 && "{"@[0] == '{');
    lemma_expect_here(s, i, "{"@);
    // Member one: "route".
    let m1 = i + 1;
    assert forall|k: int| 0 <= k < 7 implies s[m1 + k] == "\"route\""@[k] by {
        assert(rj[1 + k] == "{\"route\":"@[1 + k]);
    }
    assert(rj[8] == ':');
    assert(s[m1 + 7] == ':');
    assert forall|k: int| 0 <= k < n1 implies s[m1 + 8 + k] == q1[k] by {
        assert(rj[9 + k] == q1[k]);
    }
    assert(!is_ws("\"route\""@[0]));
    lemma_parse_member_at(s, m1, "\"route\""@, r.route);
    // Separator and member two: "method".
    let p2 = i + 9 + n1;
    assert(rj[9 + n1] == ',');
    assert(s[p2] == ',' && !is_ws(s[p2]));
    assert(spec_skip_ws(s, p2) == p2);
    assert(","@.len() == 1 && ","@[0] == ',');
    lemma_expect_here(s, p2, ","@);
    let m2 = p2 + 1;
    assert forall|k: int| 0 <= k < 8 implies s[m2 + k] == "\"method\""@[k] by {
        assert(rj[9 + n1 + 1 + k] == ",\"method\":"@[1 + k]);
    }
    assert(rj[9 + n1 + 9] == ':');
    assert(s[m2 + 8] == ':');
    assert forall|k: int| 0 <= k < n2 implies s[m2 + 9 + k] == q2[k] by {
        assert(rj[9 + n1 + 10 + k] == q2[k]);
    }
    assert(!is_ws("\"method\""@[0]));
    lemma_parse_member_at(s, m2, "\"method\""@, r.method);
    // Separator and member three: "is_route_dynamic".
    let p3 = i + 9 + n1 + 10 + n2;
    assert(rj[9 + n1 + 10 + n2] == ',');
    assert(s[p3] == ',' && !is_ws(s[p3]));
    assert(spec_skip_ws(s, p3) == p3);
    lemma_expect_here(s, p3, ","@);
    let m3 = p3 + 1;
    assert forall|k: int| 0 <= k < 18 implies s[m3 + k] == "\"is_route_dynamic\""@[k] by {
        assert(rj[9 + n1 + 10 + n2 + 1 + k] == ",\"is_route_dynamic\":"@[1 + k]);
    }
    assert(rj[9 + n1 + 10 + n2 + 19] == ':');
    assert(s[m3 + 18] == ':');
    assert forall|k: int| 0 <= k < n3 implies s[m3 + 19 + k] == q3[k] by {
        assert(rj[9 + n1 + 10 + n2 + 20 + k] == q3[k]);
    }
    assert(!is_ws("\"is_route_dynamic\""@[0]));
    lemma_parse_member_at(s, m3, "\"is_route_dynamic\""@, r.is_route_dynamic);
    // Exit: '}'.
    let p4 = i + 9 + n1 + 10 + n2 + 20 + n3;
    assert(rj[9 + n1 + 10 + n2 + 20 + n3] == '}');
    assert(s[p4] == '}' && !is_ws(s[p4]));
    assert(spec_skip_ws(s, p4) == p4);
    assert("}"@.len() == 1 && "}"@[0] == '}');
    lemma_expect_here(s, p4, "}"@);
    assert(RouteView { route: r.route, method: r.method, is_route_dynamic: r.is_route_dynamic }
        == r);
}

/// What follows the first route of a non-empty schema: for each further
/// route a comma and its text, then the closing bracket.
spec fn tail_json(rs: Seq<RouteView>) -> Seq<char>
    decreases rs.len(),
{
    if rs.len() == 0 {
        "]"@
    } else {
        ","@ + route_json(rs[0]) + tail_json(rs.skip(1))
    }
}

proof fn lemma_body_tail(rs: Seq<RouteView>)
    requires
        rs.len() > 0,
    ensures
        routes_json_body(rs) + "]"@ == route_json(rs[0]) + tail_json(rs.skip(1)),
    decreases rs.len(),
{
    if rs.len() == 1 {
        assert(rs.skip(1).len() == 0);
        assert(routes_json_body(rs) == route_json(rs[0]));
        assert(tail_json(rs.skip(1)) == "]"@);
    } else {
        lemma_body_tail(rs.skip(1));
        let rj0 = route_json(rs[0]);
        let b1 = routes_json_body(rs.skip(1));
        let t1 = tail_json(rs.skip(1));
        assert(routes_json_body(rs) == rj0 + ","@ + b1);
        assert(t1 == ","@ + route_json(rs.skip(1)[0]) + tail_json(rs.skip(1).skip(1)));
        assert(t1 =~= ","@ + (b1 + "]"@));
        assert(routes_json_body(rs) + "]"@ =~= rj0 + (","@ + (b1 + "]"@)));
        assert(routes_json_body(rs) + "]"@ == rj0 + t1);
    }
}

proof fn lemma_parse_rest_at(s: Seq<char>, i: int, rs: Seq<RouteView>)
    requires
        0 <= i,
        i + tail_json(rs).len() <= s.len(),
        forall|k: int| 0 <= k < tail_json(rs).len() ==> s[i + k] == tail_json(rs)[k],
    ensures
        spec_parse_routes_rest(s, i) == Some((rs, i + tail_json(rs).len())),
    decreases rs.len(),
{
    reveal_strlit("]");
    reveal_strlit(",");
    if rs.len() == 0 {
        assert(tail_json(rs) == "]"@);
        assert(s[i + 0] == tail_json(rs)[0]);
        assert(s[i] == ']' && !is_ws(s[i]));
        assert(spec_skip_ws(s, i) == i);
        lemma_expect_here(s, i, "]"@);
        assert(spec_parse_routes_rest(s, i) == Some((Seq::<RouteView>::empty(), i + 1)));
        assert(rs =~= Seq::<RouteView>::empty());
    } else {
        let rj = route_json(rs[0]);
        let rest = tail_json(rs.skip(1));
        assert(tail_json(rs) == ","@ + rj + rest);
        assert(tail_json(rs)[0] == ',');
        assert(s[i] == ',' && !is_ws(s[i]));
        assert(spec_skip_ws(s, i) == i);
        lemma_expect_not_here(s, i, "]"@);
        lemma_expect_here(s, i, ","@);
        assert forall|k: int| 0 <= k < rj.len() implies s[i + 1 + k] == rj[k] by {
            assert(tail_json(rs)[1 + k] == rj[k]);
        }
        lemma_parse_route_at(s, i + 1, rs[0]);
        let j = i + 1 + rj.len() as int;
        assert forall|k: int| 0 <= k < rest.len() implies s[j + k] == rest[k] by {
            assert(tail_json(rs)[1 + rj.len() + k] == rest[k]);
        }
        lemma_parse_rest_at(s, j, rs.skip(1));
        assert(seq![rs[0]] + rs.skip(1) =~= rs);
    }
}

proof fn lemma_route_json_first(r: RouteView)
    ensures
        route_json(r).len() >= 1,
        route_json(r)[0] == '{',
{
    reveal_strlit("{\"route\":");
}

#[verifier::rlimit(100)]
#[verifier::spinoff_prover]
proof fn lemma_round_trip_nonempty(rs: Seq<RouteView>)
    requires
        rs.len() > 0,
    ensures
        spec_parse_routes(routes_json(rs)) == Some(rs),
{
    reveal_strlit("[");
    reveal_strlit("]");
    let s = routes_json(rs);
    assert(s[0] == '[' && !is_ws(s[0]));
    assert(spec_skip_ws(s, 0) == 0);
    assert("["@.len() == 1 && "["@[0] == '[');
    lemma_expect_here(s, 0, "["@);
    lemma_body_tail(rs);
    lemma_route_json_first(rs[0]);
    let rj = route_json(rs[0]);
    let rest = tail_json(rs.skip(1));
    assert(s =~= "["@ + (routes_json_body(rs) + "]"@));
    assert(s == "["@ + (rj + rest));
    assert(s[1] == (rj + rest)[0]);
    assert(s[1] == '{' && !is_ws(s[1]));
    assert(spec_skip_ws(s, 1) == 1);
    lemma_expect_not_here(s, 1, "]"@);
    assert forall|k: int| 0 <= k < rj.len() implies s[1 + k] == rj[k] by {
        assert(("["@ + (rj + rest))[1 + k] == (rj + rest)[k]);
    }
    lemma_parse_route_at(s, 1, rs[0]);
    let j = 1 + rj.len() as int;
    assert forall|k: int| 0 <= k < rest.len() implies s[j + k] == rest[k] by {
        assert(("["@ + (rj + rest))[j + k] == (rj + rest)[rj.len() + k]);
    }
    lemma_parse_rest_at(s, j, rs.skip(1));
    let k_end = j + rest.len() as int;
    assert(k_end == s.len());
    assert(spec_skip_ws(s, k_end) == k_end);
    assert(seq![rs[0]] + rs.skip(1) =~= rs);
}

/// Round trip: the canonical text the writer produces for any route list
/// means, to the reader, exactly that route list.
pub proof fn lemma_routes_json_round_trip(rs: Seq<RouteView>)
    ensures
        spec_parse_routes(routes_json(rs)) == Some(rs),
{
    reveal_strlit("[");
    reveal_strlit("]");
    if rs.len() == 0 {
        let s = routes_json(rs);
        assert(s[0] == '[' && !is_ws(s[0]));
        assert(spec_skip_ws(s, 0) == 0);
        assert("["@.len() == 1 && "["@[0] == '[');
        lemma_expect_here(s, 0, "["@);
        assert(routes_json_body(rs).len() == 0);
        assert(s.len() == 2);
        assert(s[1] == ']' && !is_ws(s[1]));
        assert(spec_skip_ws(s, 1) == 1);
        lemma_expect_here(s, 1, "]"@);
        assert(spec_skip_ws(s, 2) == 2);
        assert(rs =~= Seq::<RouteView>::empty());
    } else {
        lemma_round_trip_nonempty(rs);
    }
}

pub(crate) fn skip_ws(v: &Vec<char>, i: usize) -> (j: usize)
    requires
        i <= v@.len(),
    ensures
        j as int == spec_skip_ws(v@, i as int),
        i <= j <= v@.len(),
    decreases v@.len() - i,
{
    if i < v.len() {
        let c = v[i];
        if c == ' ' || c == '\n' || c == '\r' || c == '\t' {
            return skip_ws(v, i + 1);
        }
    }
    i
}

pub(crate) fn expect_lit(v: &Vec<char>, i: usize, lit: &str) -> (r: Option<usize>)
    requires
        i <= v@.len(),
    ensures
        match r {
            Some(j) => spec_expect(v@, i as int, lit@) == Some(j as int) && i <= j <= v@.len(),
            None => spec_expect(v@, i as int, lit@) is None,
        },
{
    let n: usize = lit.unicode_len();
    let len: usize = v.len();
    if n > len - i {
        return None;
    }
    let mut k: usize = 0;
    while k < n
        invariant
            i + n <= len,
            len == v@.len(),
            n == lit@.len(),
            k <= n,
            forall|m: int| 0 <= m < k ==> v@[i + m] == lit@[m],
        decreases n - k,
    {
        if v[i + k] != lit.get_char(k) {
            proof {
                assert(v@.subrange(i as int, i + lit@.len())[k as int] != lit@[k as int]);
            }
            return None;
        }
        k = k + 1;
    }
    proof {
        assert(v@.subrange(i as int, i + lit@.len()) =~= lit@);
    }
    Some(i + n)
}

proof fn lemma_char_code_injective(c1: char, c2: char)
    requires
        c1 as u32 == c2 as u32,
    ensures
        c1 == c2,
{
}

fn hex_digit(c: char) -> (r: Option<u32>)
    ensures
        match r {
            Some(d) => hex_val(c) == Some(d as int) && d < 16,
            None => hex_val(c) is None,
        },
{
    let n = c as u32;
    if 48 <= n && n <= 57 {
        Some(n - 48)
    } else if 97 <= n && n <= 102 {
        Some(n - 87)
    } else if 65 <= n && n <= 70 {
        Some(n - 55)
    } else {
        None
    }
}

fn hex4(v: &Vec<char>, i: usize) -> (r: Option<u32>)
    requires
        i <= v@.len(),
    ensures
        match r {
            Some(n) => spec_hex4(v@, i as int) == Some(n as int) && n <= 0xFFFF,
            None => spec_hex4(v@, i as int) is None,
        },
{
    if v.len() - i < 4 {
        return None;
    }
    let a = match hex_digit(v[i]) {
        Some(d) => d,
        None => { return None },
    };
    let b = match hex_digit(v[i + 1]) {
        Some(d) => d,
        None => { return None },
    };
    let c = match hex_digit(v[i + 2]) {
        Some(d) => d,
        None => { return None },
    };
    let d = match hex_digit(v[i + 3]) {
        Some(d) => d,
        None => { return None },
    };
    Some(a * 4096 + b * 256 + c * 16 + d)
}

fn unescape_char(e: char) -> (r: Option<char>)
    ensures
        r == esc_char(e),
{
    if e == '"' {
        Some('"')
    } else if e == '\\' {
        Some('\\')
    } else if e == '/' {
        Some('/')
    } else if e == 'b' {
        Some('\u{0008}')
    } else if e == 'f' {
        Some('\u{000C}')
    } else if e == 'n' {
        Some('\n')
    } else if e == 'r' {
        Some('\r')
    } else if e == 't' {
        Some('\t')
    } else {
        None
    }
}

fn parse_string_body(v: &Vec<char>, i: usize) -> (r: Option<(String, usize)>)
    requires
        i <= v@.len(),
    ensures
        match r {
            Some((t, j)) => spec_parse_string_body(v@, i as int) == Some((t@, j as int)) && i < j
                <= v@.len(),
            None => spec_parse_string_body(v@, i as int) is None,
        },
    decreases v@.len() - i,
{
    proof {
        reveal(spec_parse_string_body);
    }
    if i >= v.len() {
        return None;
    }
    let c = v[i];
    if c == '"' {
        Some((String::new(), i + 1))
    } else if c == '\\' {
        if i + 1 < v.len() {
            let e = v[i + 1];
            if e == 'u' {
                match hex4(v, i + 2) {
                    None => None,
                    Some(n) => {
                        if 0xD800 <= n && n <= 0xDBFF {
                            if v.len() - i > 7 && v[i + 6] == '\\' && v[i + 7] == 'u' {
                                match hex4(v, i + 8) {
                                    None => None,
                                    Some(n2) => {
                                        if 0xDC00 <= n2 && n2 <= 0xDFFF {
                                            let code: u32 = 0x10000 + (n - 0xD800) * 0x400 + (n2
                                                - 0xDC00);
                                            let ch: char = match char_from_u32(code) {
                                                Some(ch) => ch,
                                                None => {
                                                    proof {
                                                        assert(false);
                                                    }
                                                    ' '
                                                },
                                            };
                                            match parse_string_body(v, i + 12) {
                                                Some((t, j)) => {
                                                    let mut s: String = String::new();
                                                    push_char(&mut s, ch);
                                                    s.append(t.as_str());
                                                    proof {
                                                        let m = combine_surrogates(
                                                            n as int,
                                                            n2 as int,
                                                        );
                                                        assert(m == code as int);
                                                        assert(is_unicode_scalar(code as int));
                                                        assert((m as char) as u32 == code);
                                                        assert(ch as u32 == code);
                                                        lemma_char_code_injective(ch, m as char);
                                                        assert(s@ =~= seq![ch] + t@);
                                                    }
                                                    Some((s, j))
                                                },
                                                None => None,
                                            }
                                        } else {
                                            None
                                        }
                                    },
                                }
                            } else {
                                None
                            }
                        } else if 0xDC00 <= n && n <= 0xDFFF {
                            None
                        } else {
                            let ch: char = match char_from_u32(n) {
                                Some(ch) => ch,
                                None => {
                                    proof {
                                        assert(false);
                                    }
                                    ' '
                                },
                            };
                            match parse_string_body(v, i + 6) {
                                Some((t, j)) => {
                                    let mut s: String = String::new();
                                    push_char(&mut s, ch);
                                    s.append(t.as_str());
                                    proof {
                                        assert(is_unicode_scalar(n as int));
                                        assert(((n as int) as char) as u32 == n);
                                        assert(ch as u32 == n);
                                        lemma_char_code_injective(ch, (n as int) as char);
                                        assert(s@ =~= seq![ch] + t@);
                                    }
                                    Some((s, j))
                                },
                                None => None,
                            }
                        }
                    },
                }
            } else {
                match unescape_char(e) {
                    Some(d) => match parse_string_body(v, i + 2) {
                        Some((t, j)) => {
                            let mut s: String = String::new();
                            push_char(&mut s, d);
                            s.append(t.as_str());
                            proof {
                                assert(s@ =~= seq![d] + t@);
                            }
                            Some((s, j))
                        },
                        None => None,
                    },
                    None => None,
                }
            }
        } else {
            None
        }
    } else {
        match parse_string_body(v, i + 1) {
            Some((t, j)) => {
                let mut s: String = String::new();
                push_char(&mut s, c);
                s.append(t.as_str());
                proof {
                    assert(s@ =~= seq![v@[i as int]] + t@);
                }
                Some((s, j))
            },
            None => None,
        }
    }
}

pub(crate) fn parse_string(v: &Vec<char>, i: usize) -> (r: Option<(String, usize)>)
    requires
        i <= v@.len(),
    ensures
        match r {
            Some((t, j)) => spec_parse_string(v@, i as int) == Some((t@, j as int)) && i < j
                <= v@.len(),
            None => spec_parse_string(v@, i as int) is None,
        },
{
    if i < v.len() {
        let c = v[i];
        if c == '"' {
            return parse_string_body(v, i + 1);
        }
    }
    None
}

fn parse_member(v: &Vec<char>, i: usize, key: &str) -> (r: Option<(String, usize)>)
    requires
        i <= v@.len(),
    ensures
        match r {
            Some((t, j)) => spec_parse_member(v@, i as int, key@) == Some((t@, j as int)) && i < j
                <= v@.len(),
            None => spec_parse_member(v@, i as int, key@) is None,
        },
{
    let i1 = skip_ws(v, i);
    match expect_lit(v, i1, key) {
        None => None,
        Some(i2) => {
            let i3 = skip_ws(v, i2);
            match expect_lit(v, i3, ":") {
                None => None,
                Some(i4) => {
                    let i5 = skip_ws(v, i4);
                    parse_string(v, i5)
                },
            }
        },
    }
}

fn parse_route(v: &Vec<char>, i: usize) -> (r: Option<(RouteObject, usize)>)
    requires
        i <= v@.len(),
    ensures
        match r {
            Some((ro, j)) => spec_parse_route(v@, i as int) == Some((ro@, j as int)) && i < j
                <= v@.len(),
            None => spec_parse_route(v@, i as int) is None,
        },
{
    let i1 = skip_ws(v, i);
    let i2 = match expect_lit(v, i1, "{") {
        None => { return None },
        Some(x) => x,
    };
    let (route, i3) = match parse_member(v, i2, "\"route\"") {
        None => { return None },
        Some(p) => p,
    };
    let i4 = skip_ws(v, i3);
    let i5 = match expect_lit(v, i4, ",") {
        None => { return None },
        Some(x) => x,
    };
    let (method, i6) = match parse_member(v, i5, "\"method\"") {
        None => { return None },
        Some(p) => p,
    };
    let i7 = skip_ws(v, i6);
    let i8 = match expect_lit(v, i7, ",") {
        None => { return None },
        Some(x) => x,
    };
    let (is_route_dynamic, i9) = match parse_member(v, i8, "\"is_route_dynamic\"") {
        None => { return None },
        Some(p) => p,
    };
    let i10 = skip_ws(v, i9);
    let i11 = match expect_lit(v, i10, "}") {
        None => { return None },
        Some(x) => x,
    };
    Some((RouteObject { route, method, is_route_dynamic }, i11))
}

fn parse_routes_tail(v: &Vec<char>, start: usize) -> (r: Option<(Vec<RouteObject>, usize)>)
    requires
        start <= v@.len(),
    ensures
        match r {
            Some((rv, k)) => spec_parse_routes_rest(v@, start as int) == Some(
                (rv.deep_view(), k as int),
            ) && k <= v@.len(),
            None => spec_parse_routes_rest(v@, start as int) is None,
        },
{
    let mut acc: Vec<RouteObject> = Vec::new();
    let mut i: usize = start;
    proof {
        assert(acc.deep_view() =~= Seq::<RouteView>::empty());
    }
    loop
        invariant
            i <= v@.len(),
            start <= v@.len(),
            spec_parse_routes_rest(v@, start as int) is Some <==> spec_parse_routes_rest(
                v@,
                i as int,
            ) is Some,
            spec_parse_routes_rest(v@, i as int) matches Some((rest, k))
                ==> spec_parse_routes_rest(v@, start as int) == Some((acc.deep_view() + rest, k)),
        decreases v@.len() - i,
    {
        let i1 = skip_ws(v, i);
        match expect_lit(v, i1, "]") {
            Some(i2) => {
                proof {
                    assert(spec_parse_routes_rest(v@, i as int) == Some(
                        (Seq::<RouteView>::empty(), i2 as int),
                    ));
                    assert(acc.deep_view() + Seq::<RouteView>::empty() =~= acc.deep_view());
                }
                return Some((acc, i2));
            },
            None => {
                match expect_lit(v, i1, ",") {
                    None => {
                        return None;
                    },
                    Some(i2) => {
                        match parse_route(v, i2) {
                            None => {
                                return None;
                            },
                            Some((ro, j)) => {
                                proof {
                                    let prev = acc.deep_view();
                                    assert(spec_parse_routes_rest(v@, i as int) matches Some(
                                        (rest, k),
                                    ) ==> rest == seq![ro@] + (spec_parse_routes_rest(
                                        v@,
                                        j as int,
                                    )->0).0);
                                }
                                let ghost prev = acc.deep_view();
                                acc.push(ro);
                                proof {
                                    assert(acc.deep_view() =~= prev + seq![ro@]);
                                    if spec_parse_routes_rest(v@, j as int) is Some {
                                        let rest_j = (spec_parse_routes_rest(v@, j as int)->0).0;
                                        assert(prev + (seq![ro@] + rest_j) =~= acc.deep_view()
                                            + rest_j);
                                    }
                                }
                                i = j;
                            },
                        }
                    },
                }
            },
        }
    }
}

/// Reads an endpoint schema back from JSON text. Returns `None` exactly
/// when the text does not parse; a parsed value is exactly what
/// `spec_parse_routes` says the text means.
pub fn parse_routes(text: &str) -> (r: Option<Vec<RouteObject>>)
    ensures
        match r {
            Some(rv) => spec_parse_routes(text@) == Some(rv.deep_view()),
            None => spec_parse_routes(text@) is None,
        },
{
    let v: Vec<char> = chars_of(text);
    let i1 = skip_ws(&v, 0);
    let i2 = match expect_lit(&v, i1, "[") {
        None => { return None },
        Some(x) => x,
    };
    let i3 = skip_ws(&v, i2);
    match expect_lit(&v, i3, "]") {
        Some(i4) => {
            let e = skip_ws(&v, i4);
            if e == v.len() {
                let out: Vec<RouteObject> = Vec::new();
                proof {
                    assert(out.deep_view() =~= Seq::<RouteView>::empty());
                }
                Some(out)
            } else {
                None
            }
        },
        None => {
            let (ro, j) = match parse_route(&v, i2) {
                None => { return None },
                Some(p) => p,
            };
            let (rest, k) = match parse_routes_tail(&v, j) {
                None => { return None },
                Some(p) => p,
            };
            let e = skip_ws(&v, k);
            if e == v.len() {
                let ghost rest_view = rest.deep_view();
                let mut out: Vec<RouteObject> = Vec::new();
                out.push(ro);
                let mut rest = rest;
                out.append(&mut rest);
                proof {
                    assert(out.deep_view() =~= seq![out@[0]@] + rest_view);
                }
                Some(out)
            } else {
                None
            }
        },
    }
}

} // verus!
