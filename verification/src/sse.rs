//! The chunked event decoder: turns the raw text of one body chunk into
//! typed protocol events, one per `data: ` frame.
//!
//! A frame payload is a JSON object; only the parts this engine acts on
//! are read — a structured `error` object, and the first choice's `delta`
//! — while every other member is skipped whole.  Field order is free and
//! unknown members are ignored, as the wire convention allows.

use vstd::prelude::*;

use crate::events::{
    GenerateError, GenerateErrorView, ProtocolEvent, ProtocolEventView, ServerError,
    ServerErrorView,
};
use crate::json::{
    is_ws, spec_parse_string, spec_parse_string_body, spec_skip_elements, spec_skip_value,
    spec_skip_ws, parse_string_body, parse_string_ex, skip_elements_ex, skip_value_ex, skip_ws_ex,
};
use crate::session::{ResponseChatMessage, ResponseMessageView, Role};
use crate::text::{chars_to_string, str_to_chars};

verus! {

use vstd::string::StringExecFns;

/// How deep a skipped value may nest.
pub open spec fn spec_skip_depth() -> nat {
    64
}

/// Whether a character sequence equals a literal, executable.
pub fn chars_eq_lit(v: &Vec<char>, lit: &str) -> (r: bool)
    ensures
        r == (v@ == lit@),
{
    let cs = str_to_chars(lit);
    if v.len() != cs.len() {
        proof {
            assert(v@ != lit@);
        }
        return false;
    }
    let mut i: usize = 0;
    while i < v.len()
        invariant
            i <= v@.len(),
            v@.len() == cs@.len(),
            cs@ == lit@,
            forall|j: int| 0 <= j < i ==> v@[j] == #[trigger] cs@[j],
        decreases v@.len() - i,
    {
        if v[i] != cs[i] {
            proof {
                assert(v@[i as int] != lit@[i as int]);
            }
            return false;
        }
        i += 1;
    }
    proof {
        assert(v@ =~= lit@);
    }
    true
}

/// The role a wire name denotes, if any.
pub open spec fn spec_role_of_name(s: Seq<char>) -> Option<Role> {
    if s == "user"@ {
        Some(Role::User)
    } else if s == "system"@ {
        Some(Role::System)
    } else if s == "assistant"@ {
        Some(Role::Assistant)
    } else {
        None
    }
}

/// The role a wire name denotes, executable.
pub fn role_of_name(v: &Vec<char>) -> (r: Option<Role>)
    ensures
        r == spec_role_of_name(v@),
{
    if chars_eq_lit(v, "user") {
        Some(Role::User)
    } else if chars_eq_lit(v, "system") {
        Some(Role::System)
    } else if chars_eq_lit(v, "assistant") {
        Some(Role::Assistant)
    } else {
        None
    }
}

/// Reads the members of a `delta` object, the opening brace and following
/// whitespace consumed: a `role` name, a `content` string, anything else
/// skipped; a later occurrence of a member wins.
pub open spec fn spec_parse_delta_obj(
    s: Seq<char>,
    pos: int,
    role: Option<Role>,
    content: Option<Seq<char>>,
    first: bool,
) -> Option<((Option<Role>, Option<Seq<char>>), int)>
    decreases s.len() - pos,
{
    if pos < 0 || pos >= s.len() {
        None
    } else if first && s[pos] == '}' {
        Some(((role, content), pos + 1))
    } else if s[pos] == '"' {
        match spec_parse_string_body(s, pos + 1) {
            None => None,
            Some((key, p1)) => {
                let p2 = spec_skip_ws(s, p1);
                if pos < p2 < s.len() && s[p2] == ':' {
                    let p3 = spec_skip_ws(s, p2 + 1);
                    if pos < p3 <= s.len() {
                        let step: Option<(Option<Role>, Option<Seq<char>>, int)> = if key
                            == "role"@ {
                            match spec_parse_string(s, p3) {
                                None => None,
                                Some((rv, p4)) => match spec_role_of_name(rv) {
                                    None => None,
                                    Some(r2) => Some((Some(r2), content, p4)),
                                },
                            }
                        } else if key == "content"@ {
                            match spec_parse_string(s, p3) {
                                None => None,
                                Some((cv, p4)) => Some((role, Some(cv), p4)),
                            }
                        } else {
                            match spec_skip_value(s, p3, spec_skip_depth()) {
                                None => None,
                                Some(p4) => Some((role, content, p4)),
                            }
                        };
                        match step {
                            None => None,
                            Some((role2, content2, p4)) => {
                                let p5 = spec_skip_ws(s, p4);
                                if pos < p5 < s.len() {
                                    if s[p5] == ',' {
                                        let p6 = spec_skip_ws(s, p5 + 1);
                                        if pos < p6 <= s.len() {
                                            spec_parse_delta_obj(s, p6, role2, content2, false)
                                        } else {
                                            None
                                        }
                                    } else if s[p5] == '}' {
                                        Some(((role2, content2), p5 + 1))
                                    } else {
                                        None
                                    }
                                } else {
                                    None
                                }
                            },
                        }
                    } else {
                        None
                    }
                } else {
                    None
                }
            },
        }
    } else {
        None
    }
}

/// Reads the members of one choice object: its `delta`, anything else
/// skipped.
pub open spec fn spec_parse_choice_obj(
    s: Seq<char>,
    pos: int,
    delta: Option<ResponseMessageView>,
    first: bool,
) -> Option<(Option<ResponseMessageView>, int)>
    decreases s.len() - pos,
{
    if pos < 0 || pos >= s.len() {
        None
    } else if first && s[pos] == '}' {
        Some((delta, pos + 1))
    } else if s[pos] == '"' {
        match spec_parse_string_body(s, pos + 1) {
            None => None,
            Some((key, p1)) => {
                let p2 = spec_skip_ws(s, p1);
                if pos < p2 < s.len() && s[p2] == ':' {
                    let p3 = spec_skip_ws(s, p2 + 1);
                    if pos < p3 <= s.len() {
                        let step: Option<(Option<ResponseMessageView>, int)> = if key
                            == "delta"@ {
                            if p3 < s.len() && s[p3] == '{' {
                                let q = spec_skip_ws(s, p3 + 1);
                                if p3 < q <= s.len() {
                                    match spec_parse_delta_obj(s, q, None, None, true) {
                                        None => None,
                                        Some(((r2, c2), p4)) => Some(
                                            (
                                                Some(
                                                    ResponseMessageView { role: r2, content: c2 },
                                                ),
                                                p4,
                                            ),
                                        ),
                                    }
                                } else {
                                    None
                                }
                            } else {
                                None
                            }
                        } else {
                            match spec_skip_value(s, p3, spec_skip_depth()) {
                                None => None,
                                Some(p4) => Some((delta, p4)),
                            }
                        };
                        match step {
                            None => None,
                            Some((delta2, p4)) => {
                                let p5 = spec_skip_ws(s, p4);
                                if pos < p5 < s.len() {
                                    if s[p5] == ',' {
                                        let p6 = spec_skip_ws(s, p5 + 1);
                                        if pos < p6 <= s.len() {
                                            spec_parse_choice_obj(s, p6, delta2, false)
                                        } else {
                                            None
                                        }
                                    } else if s[p5] == '}' {
                                        Some((delta2, p5 + 1))
                                    } else {
                                        None
                                    }
                                } else {
                                    None
                                }
                            },
                        }
                    } else {
                        None
                    }
                } else {
                    None
                }
            },
        }
    } else {
        None
    }
}

/// Reads the members of an `error` object: `message` and `type` strings,
/// `param` and `code` strings or nulls, anything else skipped.
pub open spec fn spec_parse_error_obj(
    s: Seq<char>,
    pos: int,
    message: Option<Seq<char>>,
    error_type: Option<Seq<char>>,
    param: Option<Seq<char>>,
    code: Option<Seq<char>>,
    first: bool,
) -> Option<((Option<Seq<char>>, Option<Seq<char>>, Option<Seq<char>>, Option<Seq<char>>), int)>
    decreases s.len() - pos,
{
    if pos < 0 || pos >= s.len() {
        None
    } else if first && s[pos] == '}' {
        Some(((message, error_type, param, code), pos + 1))
    } else if s[pos] == '"' {
        match spec_parse_string_body(s, pos + 1) {
            None => None,
            Some((key, p1)) => {
                let p2 = spec_skip_ws(s, p1);
                if pos < p2 < s.len() && s[p2] == ':' {
                    let p3 = spec_skip_ws(s, p2 + 1);
                    if pos < p3 <= s.len() {
                        let step: Option<
                            (
                                Option<Seq<char>>,
                                Option<Seq<char>>,
                                Option<Seq<char>>,
                                Option<Seq<char>>,
                                int,
                            ),
                        > = if key == "message"@ {
                            match spec_parse_string(s, p3) {
                                None => None,
                                Some((v, p4)) => Some((Some(v), error_type, param, code, p4)),
                            }
                        } else if key == "type"@ {
                            match spec_parse_string(s, p3) {
                                None => None,
                                Some((v, p4)) => Some((message, Some(v), param, code, p4)),
                            }
                        } else if key == "param"@ {
                            match spec_parse_opt_str_value(s, p3) {
                                None => None,
                                Some((v, p4)) => Some((message, error_type, v, code, p4)),
                            }
                        } else if key == "code"@ {
                            match spec_parse_opt_str_value(s, p3) {
                                None => None,
                                Some((v, p4)) => Some((message, error_type, param, v, p4)),
                            }
                        } else {
                            match spec_skip_value(s, p3, spec_skip_depth()) {
                                None => None,
                                Some(p4) => Some((message, error_type, param, code, p4)),
                            }
                        };
                        match step {
                            None => None,
                            Some((m2, t2, pm2, c2, p4)) => {
                                let p5 = spec_skip_ws(s, p4);
                                if pos < p5 < s.len() {
                                    if s[p5] == ',' {
                                        let p6 = spec_skip_ws(s, p5 + 1);
                                        if pos < p6 <= s.len() {
                                            spec_parse_error_obj(s, p6, m2, t2, pm2, c2, false)
                                        } else {
                                            None
                                        }
                                    } else if s[p5] == '}' {
                                        Some(((m2, t2, pm2, c2), p5 + 1))
                                    } else {
                                        None
                                    }
                                } else {
                                    None
                                }
                            },
                        }
                    } else {
                        None
                    }
                } else {
                    None
                }
            },
        }
    } else {
        None
    }
}

/// A string, or null.
pub open spec fn spec_parse_opt_str_value(s: Seq<char>, pos: int) -> Option<
    (Option<Seq<char>>, int),
> {
    if 0 <= pos && pos + 4 <= s.len() && s.subrange(pos, pos + 4) == "null"@ {
        Some((None, pos + 4))
    } else {
        match spec_parse_string(s, pos) {
            None => None,
            Some((v, p)) => Some((Some(v), p)),
        }
    }
}

/// A string or null, executable.
pub fn parse_opt_str_value_ex(s: &Vec<char>, pos: usize) -> (r: Option<(Option<Vec<char>>, usize)>)
    requires
        pos <= s@.len(),
    ensures
        match r {
            Some((v, p)) => ({
                let vv = match v {
                    Some(ref cs) => Some(cs@),
                    None => None,
                };
                spec_parse_opt_str_value(s@, pos as int) == Some((vv, p as int)) && pos < p
                    <= s@.len()
            }),
            None => spec_parse_opt_str_value(s@, pos as int) is None,
        },
{
    if s.len() - pos >= 4 && s[pos] == 'n' && s[pos + 1] == 'u' && s[pos + 2] == 'l' && s[pos + 3]
        == 'l' {
        proof {
            reveal_strlit("null");
            assert(s@.subrange(pos as int, pos + 4) =~= "null"@);
        }
        return Some((None, pos + 4));
    }
    proof {
        reveal_strlit("null");
        if 0 <= pos && pos + 4 <= s@.len() && s@.subrange(pos as int, pos + 4) == "null"@ {
            assert(s@[pos as int] == s@.subrange(pos as int, pos + 4)[0]);
            assert(s@[pos + 1] == s@.subrange(pos as int, pos + 4)[1]);
            assert(s@[pos + 2] == s@.subrange(pos as int, pos + 4)[2]);
            assert(s@[pos + 3] == s@.subrange(pos as int, pos + 4)[3]);
        }
    }
    match parse_string_ex(s, pos) {
        Some((v, p)) => Some((Some(v), p)),
        None => None,
    }
}

/// Reads a `delta` object's members, executable.
pub fn parse_delta_obj_ex(s: &Vec<char>, pos: usize) -> (r: Option<
    ((Option<Role>, Option<Vec<char>>), usize),
>)
    requires
        pos <= s@.len(),
    ensures
        match r {
            Some(((role, content), p)) => ({
                let cv = match content {
                    Some(ref cs) => Some(cs@),
                    None => None,
                };
                spec_parse_delta_obj(s@, pos as int, None, None, true) == Some(
                    ((role, cv), p as int),
                ) && pos < p <= s@.len()
            }),
            None => spec_parse_delta_obj(s@, pos as int, None, None, true) is None,
        },
{
    let mut cur = pos;
    let mut first = true;
    let mut role: Option<Role> = None;
    let mut content: Option<Vec<char>> = None;
    loop
        invariant
            pos <= cur <= s@.len(),
            cur == pos || !first,
            spec_parse_delta_obj(s@, pos as int, None, None, true) == spec_parse_delta_obj(
                s@,
                cur as int,
                role,
                match content {
                    Some(ref cs) => Some(cs@),
                    None => None,
                },
                first,
            ),
        decreases s@.len() - cur,
    {
        if cur >= s.len() {
            return None;
        }
        if first && s[cur] == '}' {
            return Some(((role, content), cur + 1));
        }
        if s[cur] != '"' {
            return None;
        }
        let (key, p1) = match parse_string_body(s, cur + 1) {
            Some(v) => v,
            None => {
                return None;
            },
        };
        let p2 = skip_ws_ex(s, p1);
        if p2 >= s.len() || s[p2] != ':' {
            return None;
        }
        let p3 = skip_ws_ex(s, p2 + 1);
        let p4: usize;
        if chars_eq_lit(&key, "role") {
            let (rv, q) = match parse_string_ex(s, p3) {
                Some(v) => v,
                None => {
                    return None;
                },
            };
            match role_of_name(&rv) {
                Some(r2) => {
                    role = Some(r2);
                    p4 = q;
                },
                None => {
                    return None;
                },
            }
        } else if chars_eq_lit(&key, "content") {
            let (cv, q) = match parse_string_ex(s, p3) {
                Some(v) => v,
                None => {
                    return None;
                },
            };
            content = Some(cv);
            p4 = q;
        } else {
            p4 = match skip_value_ex(s, p3, 64) {
                Some(q) => q,
                None => {
                    return None;
                },
            };
        }
        let p5 = skip_ws_ex(s, p4);
        if p5 >= s.len() {
            return None;
        }
        if s[p5] == ',' {
            let p6 = skip_ws_ex(s, p5 + 1);
            cur = p6;
            first = false;
        } else if s[p5] == '}' {
            return Some(((role, content), p5 + 1));
        } else {
            return None;
        }
    }
}

/// Reads one choice object's members, executable.
pub fn parse_choice_obj_ex(s: &Vec<char>, pos: usize) -> (r: Option<
    (Option<ResponseChatMessage>, usize),
>)
    requires
        pos <= s@.len(),
    ensures
        match r {
            Some((delta, p)) => ({
                let dv = match delta {
                    Some(ref d) => Some(d@),
                    None => None,
                };
                spec_parse_choice_obj(s@, pos as int, None, true) == Some((dv, p as int)) && pos
                    < p <= s@.len()
            }),
            None => spec_parse_choice_obj(s@, pos as int, None, true) is None,
        },
{
    let mut cur = pos;
    let mut first = true;
    let mut delta: Option<ResponseChatMessage> = None;
    loop
        invariant
            pos <= cur <= s@.len(),
            cur == pos || !first,
            spec_parse_choice_obj(s@, pos as int, None, true) == spec_parse_choice_obj(
                s@,
                cur as int,
                match delta {
                    Some(ref d) => Some(d@),
                    None => None,
                },
                first,
            ),
        decreases s@.len() - cur,
    {
        if cur >= s.len() {
            return None;
        }
        if first && s[cur] == '}' {
            return Some((delta, cur + 1));
        }
        if s[cur] != '"' {
            return None;
        }
        let (key, p1) = match parse_string_body(s, cur + 1) {
            Some(v) => v,
            None => {
                return None;
            },
        };
        let p2 = skip_ws_ex(s, p1);
        if p2 >= s.len() || s[p2] != ':' {
            return None;
        }
        let p3 = skip_ws_ex(s, p2 + 1);
        let p4: usize;
        if chars_eq_lit(&key, "delta") {
            if p3 >= s.len() || s[p3] != '{' {
                return None;
            }
            let q0 = skip_ws_ex(s, p3 + 1);
            let ((r2, c2), q) = match parse_delta_obj_ex(s, q0) {
                Some(v) => v,
                None => {
                    return None;
                },
            };
            let content = match c2 {
                Some(cs) => Some(chars_to_string(&cs)),
                None => None,
            };
            delta = Some(ResponseChatMessage { role: r2, content });
            p4 = q;
        } else {
            p4 = match skip_value_ex(s, p3, 64) {
                Some(q) => q,
                None => {
                    return None;
                },
            };
        }
        let p5 = skip_ws_ex(s, p4);
        if p5 >= s.len() {
            return None;
        }
        if s[p5] == ',' {
            let p6 = skip_ws_ex(s, p5 + 1);
            cur = p6;
            first = false;
        } else if s[p5] == '}' {
            return Some((delta, p5 + 1));
        } else {
            return None;
        }
    }
}

/// Reads an `error` object's members, executable.
#[verifier::rlimit(100)]
pub fn parse_error_obj_ex(s: &Vec<char>, pos: usize) -> (r: Option<
    ((Option<Vec<char>>, Option<Vec<char>>, Option<Vec<char>>, Option<Vec<char>>), usize),
>)
    requires
        pos <= s@.len(),
    ensures
        match r {
            Some(((m, t, pm, c), p)) => ({
                let mv = match m {
                    Some(ref x) => Some(x@),
                    None => None,
                };
                let tv = match t {
                    Some(ref x) => Some(x@),
                    None => None,
                };
                let pmv = match pm {
                    Some(ref x) => Some(x@),
                    None => None,
                };
                let cv = match c {
                    Some(ref x) => Some(x@),
                    None => None,
                };
                spec_parse_error_obj(s@, pos as int, None, None, None, None, true) == Some(
                    ((mv, tv, pmv, cv), p as int),
                ) && pos < p <= s@.len()
            }),
            None => spec_parse_error_obj(s@, pos as int, None, None, None, None, true) is None,
        },
{
    let mut cur = pos;
    let mut first = true;
    let mut message: Option<Vec<char>> = None;
    let mut error_type: Option<Vec<char>> = None;
    let mut param: Option<Vec<char>> = None;
    let mut code: Option<Vec<char>> = None;
    loop
        invariant
            pos <= cur <= s@.len(),
            cur == pos || !first,
            spec_parse_error_obj(s@, pos as int, None, None, None, None, true)
                == spec_parse_error_obj(
                s@,
                cur as int,
                match message {
                    Some(ref x) => Some(x@),
                    None => None,
                },
                match error_type {
                    Some(ref x) => Some(x@),
                    None => None,
                },
                match param {
                    Some(ref x) => Some(x@),
                    None => None,
                },
                match code {
                    Some(ref x) => Some(x@),
                    None => None,
                },
                first,
            ),
        decreases s@.len() - cur,
    {
        if cur >= s.len() {
            return None;
        }
        if first && s[cur] == '}' {
            return Some(((message, error_type, param, code), cur + 1));
        }
        if s[cur] != '"' {
            return None;
        }
        let (key, p1) = match parse_string_body(s, cur + 1) {
            Some(v) => v,
            None => {
                return None;
            },
        };
        let p2 = skip_ws_ex(s, p1);
        if p2 >= s.len() || s[p2] != ':' {
            return None;
        }
        let p3 = skip_ws_ex(s, p2 + 1);
        let p4: usize;
        if chars_eq_lit(&key, "message") {
            let (v, q) = match parse_string_ex(s, p3) {
                Some(v) => v,
                None => {
                    return None;
                },
            };
            message = Some(v);
            p4 = q;
        } else if chars_eq_lit(&key, "type") {
            let (v, q) = match parse_string_ex(s, p3) {
                Some(v) => v,
                None => {
                    return None;
                },
            };
            error_type = Some(v);
            p4 = q;
        } else if chars_eq_lit(&key, "param") {
            let (v, q) = match parse_opt_str_value_ex(s, p3) {
                Some(v) => v,
                None => {
                    return None;
                },
            };
            param = v;
            p4 = q;
        } else if chars_eq_lit(&key, "code") {
            let (v, q) = match parse_opt_str_value_ex(s, p3) {
                Some(v) => v,
                None => {
                    return None;
                },
            };
            code = v;
            p4 = q;
        } else {
            p4 = match skip_value_ex(s, p3, 64) {
                Some(q) => q,
                None => {
                    return None;
                },
            };
        }
        let p5 = skip_ws_ex(s, p4);
        if p5 >= s.len() {
            return None;
        }
        if s[p5] == ',' {
            let p6 = skip_ws_ex(s, p5 + 1);
            cur = p6;
            first = false;
        } else if s[p5] == '}' {
            return Some(((message, error_type, param, code), p5 + 1));
        } else {
            return None;
        }
    }
}

/// Reads a `choices` array: the first choice's delta; further choices are
/// skipped whole.
pub open spec fn spec_parse_choices(s: Seq<char>, pos: int) -> Option<
    (Option<ResponseMessageView>, int),
> {
    if 0 <= pos < s.len() && s[pos] == '[' {
        let p1 = spec_skip_ws(s, pos + 1);
        if pos < p1 <= s.len() {
            if p1 < s.len() && s[p1] == ']' {
                Some((None, p1 + 1))
            } else if p1 < s.len() && s[p1] == '{' {
                let q = spec_skip_ws(s, p1 + 1);
                if p1 < q <= s.len() {
                    match spec_parse_choice_obj(s, q, None, true) {
                        None => None,
                        Some((delta, p2)) => {
                            let p3 = spec_skip_ws(s, p2);
                            if pos < p3 < s.len() {
                                if s[p3] == ']' {
                                    Some((delta, p3 + 1))
                                } else if s[p3] == ',' {
                                    let p4 = spec_skip_ws(s, p3 + 1);
                                    if p3 < p4 <= s.len() {
                                        match spec_skip_elements(
                                            s,
                                            p4,
                                            spec_skip_depth(),
                                            false,
                                        ) {
                                            None => None,
                                            Some(e) => Some((delta, e)),
                                        }
                                    } else {
                                        None
                                    }
                                } else {
                                    None
                                }
                            } else {
                                None
                            }
                        },
                    }
                } else {
                    None
                }
            } else {
                None
            }
        } else {
            None
        }
    } else {
        None
    }
}

/// Reads the members of a frame object: a structured `error`, the
/// `choices`, anything else skipped.
pub open spec fn spec_parse_frame_obj(
    s: Seq<char>,
    pos: int,
    err: Option<ServerErrorView>,
    delta: Option<ResponseMessageView>,
    first: bool,
) -> Option<((Option<ServerErrorView>, Option<ResponseMessageView>), int)>
    decreases s.len() - pos,
{
    if pos < 0 || pos >= s.len() {
        None
    } else if first && s[pos] == '}' {
        Some(((err, delta), pos + 1))
    } else if s[pos] == '"' {
        match spec_parse_string_body(s, pos + 1) {
            None => None,
            Some((key, p1)) => {
                let p2 = spec_skip_ws(s, p1);
                if pos < p2 < s.len() && s[p2] == ':' {
                    let p3 = spec_skip_ws(s, p2 + 1);
                    if pos < p3 <= s.len() {
                        let step: Option<
                            (Option<ServerErrorView>, Option<ResponseMessageView>, int),
                        > = if key == "error"@ {
                            if p3 < s.len() && s[p3] == '{' {
                                let q = spec_skip_ws(s, p3 + 1);
                                if p3 < q <= s.len() {
                                    match spec_parse_error_obj(
                                        s,
                                        q,
                                        None,
                                        None,
                                        None,
                                        None,
                                        true,
                                    ) {
                                        None => None,
                                        Some(((m, t, pm, c), p4)) => match (m, t) {
                                            (Some(mv), Some(tv)) => Some(
                                                (
                                                    Some(
                                                        ServerErrorView {
                                                            message: mv,
                                                            error_type: tv,
                                                            param: pm,
                                                            code: c,
                                                        },
                                                    ),
                                                    delta,
                                                    p4,
                                                ),
                                            ),
                                            _ => None,
                                        },
                                    }
                                } else {
                                    None
                                }
                            } else {
                                None
                            }
                        } else if key == "choices"@ {
                            match spec_parse_choices(s, p3) {
                                None => None,
                                Some((d2, p4)) => Some((err, d2, p4)),
                            }
                        } else {
                            match spec_skip_value(s, p3, spec_skip_depth()) {
                                None => None,
                                Some(p4) => Some((err, delta, p4)),
                            }
                        };
                        match step {
                            None => None,
                            Some((err2, delta2, p4)) => {
                                let p5 = spec_skip_ws(s, p4);
                                if pos < p5 < s.len() {
                                    if s[p5] == ',' {
                                        let p6 = spec_skip_ws(s, p5 + 1);
                                        if pos < p6 <= s.len() {
                                            spec_parse_frame_obj(s, p6, err2, delta2, false)
                                        } else {
                                            None
                                        }
                                    } else if s[p5] == '}' {
                                        Some(((err2, delta2), p5 + 1))
                                    } else {
                                        None
                                    }
                                } else {
                                    None
                                }
                            },
                        }
                    } else {
                        None
                    }
                } else {
                    None
                }
            },
        }
    } else {
        None
    }
}

/// Reads one whole frame payload: a JSON object, possibly surrounded by
/// whitespace, and nothing else.
pub open spec fn spec_parse_frame(s: Seq<char>) -> Option<
    (Option<ServerErrorView>, Option<ResponseMessageView>),
> {
    let p0 = spec_skip_ws(s, 0);
    if 0 <= p0 < s.len() && s[p0] == '{' {
        let p1 = spec_skip_ws(s, p0 + 1);
        if p0 < p1 <= s.len() {
            match spec_parse_frame_obj(s, p1, None, None, true) {
                None => None,
                Some(((err, delta), p2)) => {
                    let p3 = spec_skip_ws(s, p2);
                    if p3 == s.len() {
                        Some((err, delta))
                    } else {
                        None
                    }
                },
            }
        } else {
            None
        }
    } else {
        None
    }
}

/// The event one frame payload denotes: the structured error if the frame
/// carries one, else the first choice's delta (an empty delta where the
/// frame has none), and a decode failure where the payload is malformed.
pub open spec fn spec_frame_event(f: Seq<char>) -> ProtocolEventView {
    match spec_parse_frame(f) {
        None => ProtocolEventView::Failure(GenerateErrorView::DecodeFailure("invalid frame"@)),
        Some((Some(err), _)) => ProtocolEventView::ServerError(err),
        Some((None, Some(d))) => ProtocolEventView::Delta(d),
        Some((None, None)) => ProtocolEventView::Delta(
            ResponseMessageView { role: None, content: None },
        ),
    }
}

/// Reads a `choices` array, executable.
pub fn parse_choices_ex(s: &Vec<char>, pos: usize) -> (r: Option<
    (Option<ResponseChatMessage>, usize),
>)
    requires
        pos <= s@.len(),
    ensures
        match r {
            Some((delta, p)) => ({
                let dv = match delta {
                    Some(ref d) => Some(d@),
                    None => None,
                };
                spec_parse_choices(s@, pos as int) == Some((dv, p as int)) && pos < p <= s@.len()
            }),
            None => spec_parse_choices(s@, pos as int) is None,
        },
{
    if pos >= s.len() || s[pos] != '[' {
        return None;
    }
    let p1 = skip_ws_ex(s, pos + 1);
    if p1 < s.len() && s[p1] == ']' {
        return Some((None, p1 + 1));
    }
    if p1 >= s.len() || s[p1] != '{' {
        return None;
    }
    let q = skip_ws_ex(s, p1 + 1);
    let (delta, p2) = match parse_choice_obj_ex(s, q) {
        Some(v) => v,
        None => {
            return None;
        },
    };
    let p3 = skip_ws_ex(s, p2);
    if p3 >= s.len() {
        return None;
    }
    if s[p3] == ']' {
        Some((delta, p3 + 1))
    } else if s[p3] == ',' {
        let p4 = skip_ws_ex(s, p3 + 1);
        match skip_elements_ex(s, p4, 64, false) {
            Some(e) => Some((delta, e)),
            None => None,
        }
    } else {
        None
    }
}

/// Reads a frame object's members, executable.
#[verifier::rlimit(100)]
pub fn parse_frame_obj_ex(s: &Vec<char>, pos: usize) -> (r: Option<
    ((Option<ServerError>, Option<ResponseChatMessage>), usize),
>)
    requires
        pos <= s@.len(),
    ensures
        match r {
            Some(((err, delta), p)) => ({
                let ev = match err {
                    Some(ref e) => Some(e@),
                    None => None,
                };
                let dv = match delta {
                    Some(ref d) => Some(d@),
                    None => None,
                };
                spec_parse_frame_obj(s@, pos as int, None, None, true) == Some(
                    ((ev, dv), p as int),
                ) && pos < p <= s@.len()
            }),
            None => spec_parse_frame_obj(s@, pos as int, None, None, true) is None,
        },
{
    let mut cur = pos;
    let mut first = true;
    let mut err: Option<ServerError> = None;
    let mut delta: Option<ResponseChatMessage> = None;
    loop
        invariant
            pos <= cur <= s@.len(),
            cur == pos || !first,
            spec_parse_frame_obj(s@, pos as int, None, None, true) == spec_parse_frame_obj(
                s@,
                cur as int,
                match err {
                    Some(ref e) => Some(e@),
                    None => None,
                },
                match delta {
                    Some(ref d) => Some(d@),
                    None => None,
                },
                first,
            ),
        decreases s@.len() - cur,
    {
        if cur >= s.len() {
            return None;
        }
        if first && s[cur] == '}' {
            return Some(((err, delta), cur + 1));
        }
        if s[cur] != '"' {
            return None;
        }
        let (key, p1) = match parse_string_body(s, cur + 1) {
            Some(v) => v,
            None => {
                return None;
            },
        };
        let p2 = skip_ws_ex(s, p1);
        if p2 >= s.len() || s[p2] != ':' {
            return None;
        }
        let p3 = skip_ws_ex(s, p2 + 1);
        let p4: usize;
        if chars_eq_lit(&key, "error") {
            if p3 >= s.len() || s[p3] != '{' {
                return None;
            }
            let q = skip_ws_ex(s, p3 + 1);
            let ((m, t, pm, c), p) = match parse_error_obj_ex(s, q) {
                Some(v) => v,
                None => {
                    return None;
                },
            };
            let mv = match m {
                Some(x) => x,
                None => {
                    return None;
                },
            };
            let tv = match t {
                Some(x) => x,
                None => {
                    return None;
                },
            };
            err = Some(
                ServerError {
                    message: chars_to_string(&mv),
                    error_type: chars_to_string(&tv),
                    param: match pm {
                        Some(x) => Some(chars_to_string(&x)),
                        None => None,
                    },
                    code: match c {
                        Some(x) => Some(chars_to_string(&x)),
                        None => None,
                    },
                },
            );
            p4 = p;
        } else if chars_eq_lit(&key, "choices") {
            let (d2, p) = match parse_choices_ex(s, p3) {
                Some(v) => v,
                None => {
                    return None;
                },
            };
            delta = d2;
            p4 = p;
        } else {
            p4 = match skip_value_ex(s, p3, 64) {
                Some(q) => q,
                None => {
                    return None;
                },
            };
        }
        let p5 = skip_ws_ex(s, p4);
        if p5 >= s.len() {
            return None;
        }
        if s[p5] == ',' {
            let p6 = skip_ws_ex(s, p5 + 1);
            cur = p6;
            first = false;
        } else if s[p5] == '}' {
            return Some(((err, delta), p5 + 1));
        } else {
            return None;
        }
    }
}

/// Reads one whole frame payload, executable.
pub fn parse_frame_ex(s: &Vec<char>) -> (r: Option<
    (Option<ServerError>, Option<ResponseChatMessage>),
>)
    ensures
        match r {
            Some((err, delta)) => ({
                let ev = match err {
                    Some(ref e) => Some(e@),
                    None => None,
                };
                let dv = match delta {
                    Some(ref d) => Some(d@),
                    None => None,
                };
                spec_parse_frame(s@) == Some((ev, dv))
            }),
            None => spec_parse_frame(s@) is None,
        },
{
    let p0 = skip_ws_ex(s, 0);
    if p0 >= s.len() || s[p0] != '{' {
        return None;
    }
    let p1 = skip_ws_ex(s, p0 + 1);
    let ((err, delta), p2) = match parse_frame_obj_ex(s, p1) {
        Some(v) => v,
        None => {
            return None;
        },
    };
    let p3 = skip_ws_ex(s, p2);
    if p3 == s.len() {
        Some((err, delta))
    } else {
        None
    }
}

// ---------------------------------------------------------------------------
// chunk splitting and decoding
// ---------------------------------------------------------------------------

/// The first position at or after `pos` where the frame marker stands.
pub open spec fn spec_find_marker(s: Seq<char>, pos: int) -> Option<int>
    decreases s.len() - pos,
{
    if pos < 0 || pos + 6 > s.len() {
        None
    } else if s.subrange(pos, pos + 6) == "data: "@ {
        Some(pos)
    } else {
        spec_find_marker(s, pos + 1)
    }
}

/// The text from `pos` on, cut at each frame marker: what stands before
/// the first marker, then the pieces between markers, then what follows
/// the last one.
pub open spec fn spec_split_from(s: Seq<char>, pos: int) -> Seq<Seq<char>>
    decreases s.len() - pos,
{
    if pos < 0 || pos > s.len() {
        Seq::empty()
    } else {
        match spec_find_marker(s, pos) {
            None => seq![s.subrange(pos, s.len() as int)],
            Some(i) => {
                if pos <= i && i + 6 <= s.len() {
                    seq![s.subrange(pos, i)] + spec_split_from(s, i + 6)
                } else {
                    seq![s.subrange(pos, s.len() as int)]
                }
            },
        }
    }
}

/// A fragment that holds only whitespace, or nothing at all.
pub open spec fn spec_is_blank(f: Seq<char>) -> bool {
    forall|i: int| 0 <= i < f.len() ==> is_ws(#[trigger] f[i])
}

/// A fragment that opens with the end-of-stream sentinel.
pub open spec fn spec_is_done(f: Seq<char>) -> bool {
    f.len() >= 6 && f.subrange(0, 6) == "[DONE]"@
}

/// The events one chunk's fragments denote, in order: blank fragments are
/// dropped, the sentinel ends the sequence, and a malformed fragment ends
/// it with a decode failure.
pub open spec fn spec_decode_frags(fs: Seq<Seq<char>>) -> Seq<ProtocolEventView>
    decreases fs.len(),
{
    if fs.len() == 0 {
        Seq::empty()
    } else if spec_is_blank(fs[0]) {
        spec_decode_frags(fs.skip(1))
    } else if spec_is_done(fs[0]) {
        seq![ProtocolEventView::Done]
    } else {
        let ev = spec_frame_event(fs[0]);
        if ev is Failure {
            seq![ev]
        } else {
            seq![ev] + spec_decode_frags(fs.skip(1))
        }
    }
}

/// The events one chunk denotes.
pub open spec fn spec_decode_chunk(s: Seq<char>) -> Seq<ProtocolEventView> {
    spec_decode_frags(spec_split_from(s, 0))
}

/// Finds the next frame marker, executable.
fn find_marker_ex(s: &Vec<char>, pos: usize) -> (r: Option<usize>)
    requires
        pos <= s@.len(),
    ensures
        match r {
            Some(i) => spec_find_marker(s@, pos as int) == Some(i as int) && pos <= i && i + 6
                <= s@.len(),
            None => spec_find_marker(s@, pos as int) is None,
        },
{
    let mut cur = pos;
    loop
        invariant
            pos <= cur <= s@.len(),
            spec_find_marker(s@, pos as int) == spec_find_marker(s@, cur as int),
        decreases s@.len() - cur,
    {
        if s.len() - cur < 6 {
            return None;
        }
        if s[cur] == 'd' && s[cur + 1] == 'a' && s[cur + 2] == 't' && s[cur + 3] == 'a' && s[cur
            + 4] == ':' && s[cur + 5] == ' ' {
            proof {
                reveal_strlit("data: ");
                assert(s@.subrange(cur as int, cur + 6) =~= "data: "@);
            }
            return Some(cur);
        }
        proof {
            reveal_strlit("data: ");
            let sub = s@.subrange(cur as int, cur + 6);
            assert(sub[0] == s@[cur as int] && sub[1] == s@[cur + 1] && sub[2] == s@[cur + 2]
                && sub[3] == s@[cur + 3] && sub[4] == s@[cur + 4] && sub[5] == s@[cur + 5]);
            assert(sub != "data: "@);
        }
        cur += 1;
    }
}

/// Copies a stretch of the text, executable.
fn extract(s: &Vec<char>, from: usize, to: usize) -> (r: Vec<char>)
    requires
        from <= to <= s@.len(),
    ensures
        r@ == s@.subrange(from as int, to as int),
{
    let mut r: Vec<char> = Vec::new();
    let mut i = from;
    proof {
        assert(r@ =~= s@.subrange(from as int, from as int));
    }
    while i < to
        invariant
            from <= i <= to <= s@.len(),
            r@ == s@.subrange(from as int, i as int),
        decreases to - i,
    {
        r.push(s[i]);
        proof {
            assert(s@.subrange(from as int, i + 1) =~= s@.subrange(from as int, i as int).push(
                s@[i as int],
            ));
        }
        i += 1;
    }
    r
}

/// Splits a chunk's text at each frame marker, executable.
fn split_fragments_ex(s: &Vec<char>) -> (r: Vec<Vec<char>>)
    ensures
        Seq::new(r@.len(), |i: int| r@[i]@) == spec_split_from(s@, 0),
{
    let mut frags: Vec<Vec<char>> = Vec::new();
    let mut cur: usize = 0;
    let n = s.len();
    loop
        invariant_except_break
            spec_split_from(s@, 0) == Seq::new(frags@.len(), |i: int| frags@[i]@)
                + spec_split_from(s@, cur as int),
        invariant
            cur <= s@.len(),
            n == s@.len(),
        ensures
            Seq::new(frags@.len(), |i: int| frags@[i]@) == spec_split_from(s@, 0),
        decreases s@.len() - cur,
    {
        let ghost pre = Seq::new(frags@.len(), |i: int| frags@[i]@);
        match find_marker_ex(s, cur) {
            Some(i) => {
                frags.push(extract(s, cur, i));
                proof {
                    assert(Seq::new(frags@.len(), |j: int| frags@[j]@) =~= pre.push(
                        s@.subrange(cur as int, i as int),
                    ));
                    assert(spec_split_from(s@, cur as int) == seq![
                        s@.subrange(cur as int, i as int),
                    ] + spec_split_from(s@, i + 6));
                    assert(pre + spec_split_from(s@, cur as int) =~= pre.push(
                        s@.subrange(cur as int, i as int),
                    ) + spec_split_from(s@, i + 6));
                }
                cur = i + 6;
            },
            None => {
                frags.push(extract(s, cur, s.len()));
                proof {
                    assert(Seq::new(frags@.len(), |j: int| frags@[j]@) =~= pre.push(
                        s@.subrange(cur as int, s@.len() as int),
                    ));
                    assert(spec_split_from(s@, cur as int) == seq![
                        s@.subrange(cur as int, s@.len() as int),
                    ]);
                    assert(pre + spec_split_from(s@, cur as int) =~= pre.push(
                        s@.subrange(cur as int, s@.len() as int),
                    ));
                }
                break;
            },
        }
    }
    frags
}

/// Whether a fragment is blank, executable.
fn is_blank_ex(f: &Vec<char>) -> (r: bool)
    ensures
        r == spec_is_blank(f@),
{
    let mut i: usize = 0;
    while i < f.len()
        invariant
            i <= f@.len(),
            forall|j: int| 0 <= j < i ==> is_ws(#[trigger] f@[j]),
        decreases f@.len() - i,
    {
        let c = f[i];
        if !(c == ' ' || c == '\t' || c == '\n' || c == '\r') {
            return false;
        }
        i += 1;
    }
    true
}

/// Whether a fragment opens with the sentinel, executable.
fn is_done_ex(f: &Vec<char>) -> (r: bool)
    ensures
        r == spec_is_done(f@),
{
    if f.len() < 6 {
        return false;
    }
    if f[0] == '[' && f[1] == 'D' && f[2] == 'O' && f[3] == 'N' && f[4] == 'E' && f[5] == ']' {
        proof {
            reveal_strlit("[DONE]");
            assert(f@.subrange(0, 6) =~= "[DONE]"@);
        }
        true
    } else {
        proof {
            reveal_strlit("[DONE]");
            let sub = f@.subrange(0, 6);
            assert(sub[0] == f@[0] && sub[1] == f@[1] && sub[2] == f@[2] && sub[3] == f@[3]
                && sub[4] == f@[4] && sub[5] == f@[5]);
            assert(sub != "[DONE]"@);
        }
        false
    }
}

/// The event one non-blank fragment denotes, executable.
fn frame_event_ex(f: &Vec<char>) -> (r: ProtocolEvent)
    ensures
        r@ == spec_frame_event(f@),
{
    match parse_frame_ex(f) {
        None => ProtocolEvent::Failure(
            GenerateError::DecodeFailure(String::from_str("invalid frame")),
        ),
        Some((Some(err), _)) => ProtocolEvent::ServerError(err),
        Some((None, Some(d))) => ProtocolEvent::Delta(d),
        Some((None, None)) => ProtocolEvent::Delta(
            ResponseChatMessage { role: None, content: None },
        ),
    }
}

/// Decodes one body chunk into its protocol events: fragments are cut at
/// each `data: ` marker, blank fragments are dropped, the `[DONE]`
/// sentinel closes the stream, and a fragment that is not a well-formed
/// frame yields a terminal decode failure.
#[verifier::rlimit(100)]
pub fn decode_chunk(chunk: &str) -> (r: Vec<ProtocolEvent>)
    ensures
        Seq::new(r@.len(), |i: int| r@[i]@) == spec_decode_chunk(chunk@),
{
    let cs = str_to_chars(chunk);
    let frags = split_fragments_ex(&cs);
    let ghost fsv = Seq::new(frags@.len(), |i: int| frags@[i]@);
    let mut events: Vec<ProtocolEvent> = Vec::new();
    let mut k: usize = 0;
    proof {
        assert(fsv.skip(0) =~= fsv);
        assert(Seq::new(events@.len(), |i: int| events@[i]@) + spec_decode_frags(fsv.skip(0))
            =~= spec_decode_frags(fsv));
    }
    loop
        invariant_except_break
            spec_decode_frags(fsv) == Seq::new(events@.len(), |i: int| events@[i]@)
                + spec_decode_frags(fsv.skip(k as int)),
        invariant
            k <= frags@.len(),
            fsv == Seq::new(frags@.len(), |i: int| frags@[i]@),
            spec_decode_chunk(chunk@) == spec_decode_frags(fsv),
        ensures
            Seq::new(events@.len(), |i: int| events@[i]@) == spec_decode_frags(fsv),
        decreases frags@.len() - k,
    {
        let ghost pre = Seq::new(events@.len(), |i: int| events@[i]@);
        if k >= frags.len() {
            proof {
                assert(fsv.skip(k as int) =~= Seq::<Seq<char>>::empty());
                assert(spec_decode_frags(fsv.skip(k as int)) =~= Seq::<ProtocolEventView>::empty());
                assert(pre + Seq::<ProtocolEventView>::empty() =~= pre);
            }
            break;
        }
        let f = &frags[k];
        proof {
            assert(fsv.skip(k as int)[0] == fsv[k as int]);
            assert(fsv.skip(k as int).skip(1) =~= fsv.skip(k + 1));
        }
        if is_blank_ex(f) {
            k += 1;
            continue;
        }
        if is_done_ex(f) {
            events.push(ProtocolEvent::Done);
            proof {
                assert(spec_decode_frags(fsv.skip(k as int)) =~= seq![ProtocolEventView::Done]);
                assert(Seq::new(events@.len(), |i: int| events@[i]@) =~= pre.push(
                    ProtocolEventView::Done,
                ));
                assert(pre + seq![ProtocolEventView::Done] =~= pre.push(ProtocolEventView::Done));
                assert(fsv.skip(frags@.len() as int) =~= Seq::<Seq<char>>::empty());
            }
            break;
        }
        let ev = frame_event_ex(f);
        let terminal = match &ev {
            ProtocolEvent::Failure(_) => true,
            _ => false,
        };
        let ghost evv = ev@;
        events.push(ev);
        proof {
            assert(Seq::new(events@.len(), |i: int| events@[i]@) =~= pre.push(evv));
        }
        if terminal {
            proof {
                assert(spec_decode_frags(fsv.skip(k as int)) =~= seq![evv]);
                assert(pre + seq![evv] =~= pre.push(evv));
            }
            break;
        }
        proof {
            assert(spec_decode_frags(fsv.skip(k as int)) == seq![evv] + spec_decode_frags(
                fsv.skip(k + 1),
            ));
            assert(pre + (seq![evv] + spec_decode_frags(fsv.skip(k + 1))) =~= pre.push(evv)
                + spec_decode_frags(fsv.skip(k + 1)));
        }
        k += 1;
    }
    proof {
        assert(Seq::new(events@.len(), |i: int| events@[i]@) == spec_decode_chunk(chunk@));
    }
    events
}

} // verus!
