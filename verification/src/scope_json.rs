use vstd::prelude::*;

use crate::agent_traits::ProjectScope;
use crate::general::chars_of;
use crate::route_json::{
    expect_lit, parse_string, skip_ws, spec_expect, spec_parse_string, spec_skip_ws,
};

verus! {

// ---------------------------------------------------------------------------
// The two structured answers the solution-scoping pass decodes: a scope
// object of three booleans, and an array of URL strings. As with the
// endpoint schema, a spec parser fixes the meaning of every input and the
// executable parsers return exactly what it says.
// ---------------------------------------------------------------------------
/// A JSON boolean at position `i`.
pub open spec fn spec_parse_bool(s: Seq<char>, i: int) -> Option<(bool, int)> {
    if spec_expect(s, i, "true"@) is Some {
        Some((true, spec_expect(s, i, "true"@)->0))
    } else if spec_expect(s, i, "false"@) is Some {
        Some((false, spec_expect(s, i, "false"@)->0))
    } else {
        None
    }
}

/// A `"key": <bool>` member, with whitespace allowed around the tokens.
pub open spec fn spec_parse_bool_member(s: Seq<char>, i: int, key: Seq<char>) -> Option<
    (bool, int),
> {
    match spec_expect(s, spec_skip_ws(s, i), key) {
        None => None,
        Some(i2) => match spec_expect(s, spec_skip_ws(s, i2), ":"@) {
            None => None,
            Some(i4) => spec_parse_bool(s, spec_skip_ws(s, i4)),
        },
    }
}

/// A whole scope object: the three boolean members in canonical order,
/// then nothing but whitespace to the end of the input.
pub open spec fn spec_parse_scope(s: Seq<char>) -> Option<ProjectScope> {
    match spec_expect(s, spec_skip_ws(s, 0), "{"@) {
        None => None,
        Some(i1) => match spec_parse_bool_member(s, i1, "\"is_crud_required\""@) {
            None => None,
            Some((crud, i2)) => match spec_expect(s, spec_skip_ws(s, i2), ","@) {
                None => None,
                Some(i3) => match spec_parse_bool_member(s, i3, "\"is_user_login_and_logout\""@) {
                    None => None,
                    Some((login, i4)) => match spec_expect(s, spec_skip_ws(s, i4), ","@) {
                        None => None,
                        Some(i5) => match spec_parse_bool_member(
                            s,
                            i5,
                            "\"is_external_urls_required\""@,
                        ) {
                            None => None,
                            Some((urls, i6)) => match spec_expect(s, spec_skip_ws(s, i6), "}"@) {
                                None => None,
                                Some(i7) => if spec_skip_ws(s, i7) == s.len() {
                                    Some(
                                        ProjectScope {
                                            is_crud_required: crud,
                                            is_user_login_and_logout: login,
                                            is_external_urls_required: urls,
                                        },
                                    )
                                } else {
                                    None
                                },
                            },
                        },
                    },
                },
            },
        },
    }
}

/// The strings after the first one: `("," string)* "]"`.
pub open spec fn spec_parse_strings_rest(s: Seq<char>, i: int) -> Option<(Seq<Seq<char>>, int)>
    decreases s.len() - i,
    via spec_parse_strings_rest_decreases
{
    if i < 0 || i > s.len() {
        None
    } else {
        let i1 = spec_skip_ws(s, i);
        match spec_expect(s, i1, "]"@) {
            Some(i2) => Some((Seq::empty(), i2)),
            None => match spec_expect(s, i1, ","@) {
                None => None,
                Some(i2) => match spec_parse_string(s, spec_skip_ws(s, i2)) {
                    None => None,
                    Some((t, j)) => match spec_parse_strings_rest(s, j) {
                        None => None,
                        Some((rest, k)) => Some((seq![t] + rest, k)),
                    },
                },
            },
        }
    }
}

#[via_fn]
proof fn spec_parse_strings_rest_decreases(s: Seq<char>, i: int) {
    crate::route_json::lemma_skip_ws_bounds(s, i);
    let i1 = spec_skip_ws(s, i);
    if spec_expect(s, i1, ","@) is Some {
        let i2 = spec_expect(s, i1, ","@)->0;
        crate::route_json::lemma_skip_ws_bounds(s, i2);
        crate::route_json::lemma_parse_string_body_bounds(s, spec_skip_ws(s, i2) + 1);
    }
}

/// A whole URL list: `[` then either `]` or strings separated by commas,
/// then `]`, then nothing but whitespace to the end of the input.
pub open spec fn spec_parse_string_array(s: Seq<char>) -> Option<Seq<Seq<char>>> {
    match spec_expect(s, spec_skip_ws(s, 0), "["@) {
        None => None,
        Some(i2) => {
            let i3 = spec_skip_ws(s, i2);
            match spec_expect(s, i3, "]"@) {
                Some(i4) => if spec_skip_ws(s, i4) == s.len() {
                    Some(Seq::empty())
                } else {
                    None
                },
                None => match spec_parse_string(s, i3) {
                    None => None,
                    Some((t, j)) => match spec_parse_strings_rest(s, j) {
                        None => None,
                        Some((rest, k)) => if spec_skip_ws(s, k) == s.len() {
                            Some(seq![t] + rest)
                        } else {
                            None
                        },
                    },
                },
            }
        },
    }
}

fn parse_bool(v: &Vec<char>, i: usize) -> (r: Option<(bool, usize)>)
    requires
        i <= v@.len(),
    ensures
        match r {
            Some((b, j)) => spec_parse_bool(v@, i as int) == Some((b, j as int)) && i <= j
                <= v@.len(),
            None => spec_parse_bool(v@, i as int) is None,
        },
{
    match expect_lit(v, i, "true") {
        Some(j) => Some((true, j)),
        None => match expect_lit(v, i, "false") {
            Some(j) => Some((false, j)),
            None => None,
        },
    }
}

fn parse_bool_member(v: &Vec<char>, i: usize, key: &str) -> (r: Option<(bool, usize)>)
    requires
        i <= v@.len(),
    ensures
        match r {
            Some((b, j)) => spec_parse_bool_member(v@, i as int, key@) == Some((b, j as int)) && i
                <= j <= v@.len(),
            None => spec_parse_bool_member(v@, i as int, key@) is None,
        },
{
    let i1 = skip_ws(v, i);
    match expect_lit(v, i1, key) {
        None => None,
        Some(i2) => {
            let i3 = skip_ws(v, i2);
            match expect_lit(v, i3, ":") {
                None => None,
                Some(i4) => {
                    let i5 = skip_ws(v, i4);
                    parse_bool(v, i5)
                },
            }
        },
    }
}

/// Reads a scope object back from JSON text. Returns `None` exactly when
/// the text does not parse.
pub fn parse_scope(text: &str) -> (r: Option<ProjectScope>)
    ensures
        r == spec_parse_scope(text@),
{
    let v: Vec<char> = chars_of(text);
    let i0 = skip_ws(&v, 0);
    let i1 = match expect_lit(&v, i0, "{") {
        None => { return None },
        Some(x) => x,
    };
    let (crud, i2) = match parse_bool_member(&v, i1, "\"is_crud_required\"") {
        None => { return None },
        Some(p) => p,
    };
    let i3 = match expect_lit(&v, skip_ws(&v, i2), ",") {
        None => { return None },
        Some(x) => x,
    };
    let (login, i4) = match parse_bool_member(&v, i3, "\"is_user_login_and_logout\"") {
        None => { return None },
        Some(p) => p,
    };
    let i5 = match expect_lit(&v, skip_ws(&v, i4), ",") {
        None => { return None },
        Some(x) => x,
    };
    let (urls, i6) = match parse_bool_member(&v, i5, "\"is_external_urls_required\"") {
        None => { return None },
        Some(p) => p,
    };
    let i7 = match expect_lit(&v, skip_ws(&v, i6), "}") {
        None => { return None },
        Some(x) => x,
    };
    let e = skip_ws(&v, i7);
    if e == v.len() {
        Some(
            ProjectScope {
                is_crud_required: crud,
                is_user_login_and_logout: login,
                is_external_urls_required: urls,
            },
        )
    } else {
        None
    }
}

fn parse_strings_tail(v: &Vec<char>, start: usize) -> (r: Option<(Vec<String>, usize)>)
    requires
        start <= v@.len(),
    ensures
        match r {
            Some((sv, k)) => spec_parse_strings_rest(v@, start as int) == Some(
                (sv.deep_view(), k as int),
            ) && k <= v@.len(),
            None => spec_parse_strings_rest(v@, start as int) is None,
        },
{
    let mut acc: Vec<String> = Vec::new();
    let mut i: usize = start;
    proof {
        assert(acc.deep_view() =~= Seq::<Seq<char>>::empty());
    }
    loop
        invariant
            i <= v@.len(),
            start <= v@.len(),
            spec_parse_strings_rest(v@, start as int) is Some <==> spec_parse_strings_rest(
                v@,
                i as int,
            ) is Some,
            spec_parse_strings_rest(v@, i as int) matches Some((rest, k))
                ==> spec_parse_strings_rest(v@, start as int) == Some((acc.deep_view() + rest, k)),
        decreases v@.len() - i,
    {
        let i1 = skip_ws(v, i);
        match expect_lit(v, i1, "]") {
            Some(i2) => {
                proof {
                    assert(spec_parse_strings_rest(v@, i as int) == Some(
                        (Seq::<Seq<char>>::empty(), i2 as int),
                    ));
                    assert(acc.deep_view() + Seq::<Seq<char>>::empty() =~= acc.deep_view());
                }
                return Some((acc, i2));
            },
            None => {
                match expect_lit(v, i1, ",") {
                    None => {
                        return None;
                    },
                    Some(i2) => {
                        let i3 = skip_ws(v, i2);
                        match parse_string(v, i3) {
                            None => {
                                return None;
                            },
                            Some((t, j)) => {
                                let ghost prev = acc.deep_view();
                                let ghost tv = t@;
                                acc.push(t);
                                proof {
                                    assert(acc.deep_view() =~= prev + seq![tv]);
                                    if spec_parse_strings_rest(v@, j as int) is Some {
                                        let rest_j = (spec_parse_strings_rest(v@, j as int)->0).0;
                                        assert(prev + (seq![tv] + rest_j) =~= acc.deep_view()
                                            + rest_j);
                                    }
                                }
                                i = j;
                            },
                        }
                    },
                }
            },
        }
    }
}

/// Reads a URL list back from JSON text. Returns `None` exactly when the
/// text does not parse; a parsed value is exactly what
/// `spec_parse_string_array` says the text means.
pub fn parse_string_array(text: &str) -> (r: Option<Vec<String>>)
    ensures
        match r {
            Some(sv) => spec_parse_string_array(text@) == Some(sv.deep_view()),
            None => spec_parse_string_array(text@) is None,
        },
{
    let v: Vec<char> = chars_of(text);
    let i1 = skip_ws(&v, 0);
    let i2 = match expect_lit(&v, i1, "[") {
        None => { return None },
        Some(x) => x,
    };
    let i3 = skip_ws(&v, i2);
    match expect_lit(&v, i3, "]") {
        Some(i4) => {
            let e = skip_ws(&v, i4);
            if e == v.len() {
                let out: Vec<String> = Vec::new();
                proof {
                    assert(out.deep_view() =~= Seq::<Seq<char>>::empty());
                }
                Some(out)
            } else {
                None
            }
        },
        None => {
            let (t, j) = match parse_string(&v, i3) {
                None => { return None },
                Some(p) => p,
            };
            let (rest, k) = match parse_strings_tail(&v, j) {
                None => { return None },
                Some(p) => p,
            };
            let e = skip_ws(&v, k);
            if e == v.len() {
                let ghost tv = t@;
                let ghost rest_view = rest.deep_view();
                let mut out: Vec<String> = Vec::new();
                out.push(t);
                let mut rest = rest;
                out.append(&mut rest);
                proof {
                    assert(out.deep_view() =~= seq![tv] + rest_view);
                }
                Some(out)
            } else {
                None
            }
        },
    }
}

} // verus!
