//! The model catalogue: what the listing endpoint's response body holds,
//! and the parser that reads it.  Fetching the body is the network
//! side's work; the reading is verified here.

use vstd::prelude::*;

use crate::json::{
    spec_parse_nat, spec_parse_string, spec_parse_string_body, spec_skip_value, spec_skip_ws,
    parse_nat, parse_string_body, parse_string_ex, skip_value_ex, skip_ws_ex,
};
use crate::sse::{chars_eq_lit, spec_skip_depth};
use crate::text::{chars_to_string, str_to_chars};

verus! {

/// One model the backend offers.
#[derive(Debug)]
pub struct ModelData {
    pub id: String,
    pub object: String,
    pub created: u32,
    pub owned_by: String,
}

/// The mathematical value of a [`ModelData`].
pub struct ModelDataView {
    pub id: Seq<char>,
    pub object: Seq<char>,
    pub created: u32,
    pub owned_by: Seq<char>,
}

impl View for ModelData {
    type V = ModelDataView;

    open spec fn view(&self) -> ModelDataView {
        ModelDataView {
            id: self.id@,
            object: self.object@,
            created: self.created,
            owned_by: self.owned_by@,
        }
    }
}

/// The whole catalogue.
#[derive(Debug)]
pub struct Models {
    pub data: Vec<ModelData>,
    pub object: String,
}

/// The mathematical value of a [`Models`].
pub struct ModelsView {
    pub data: Seq<ModelDataView>,
    pub object: Seq<char>,
}

impl View for Models {
    type V = ModelsView;

    open spec fn view(&self) -> ModelsView {
        ModelsView {
            data: Seq::new(self.data@.len(), |i: int| self.data@[i]@),
            object: self.object@,
        }
    }
}

/// Reads one model object's members: `id`, `object` and `owned_by`
/// strings and a `created` count, all four required, anything else
/// skipped; a later occurrence wins.
pub open spec fn spec_parse_model_obj(
    s: Seq<char>,
    pos: int,
    id: Option<Seq<char>>,
    object: Option<Seq<char>>,
    created: Option<u32>,
    owned_by: Option<Seq<char>>,
    first: bool,
) -> Option<((Option<Seq<char>>, Option<Seq<char>>, Option<u32>, Option<Seq<char>>), int)>
    decreases s.len() - pos,
{
    if pos < 0 || pos >= s.len() {
        None
    } else if first && s[pos] == '}' {
        Some(((id, object, created, owned_by), pos + 1))
    } else if s[pos] == '"' {
        match spec_parse_string_body(s, pos + 1) {
            None => None,
            Some((key, p1)) => {
                let p2 = spec_skip_ws(s, p1);
                if pos < p2 < s.len() && s[p2] == ':' {
                    let p3 = spec_skip_ws(s, p2 + 1);
                    if pos < p3 <= s.len() {
                        let step: Option<
                            (
                                Option<Seq<char>>,
                                Option<Seq<char>>,
                                Option<u32>,
                                Option<Seq<char>>,
                                int,
                            ),
                        > = if key == "id"@ {
                            match spec_parse_string(s, p3) {
                                None => None,
                                Some((v, p4)) => Some((Some(v), object, created, owned_by, p4)),
                            }
                        } else if key == "object"@ {
                            match spec_parse_string(s, p3) {
                                None => None,
                                Some((v, p4)) => Some((id, Some(v), created, owned_by, p4)),
                            }
                        } else if key == "created"@ {
                            match spec_parse_nat(s, p3) {
                                None => None,
                                Some((v, p4)) => {
                                    if v <= u32::MAX {
                                        Some((id, object, Some(v as u32), owned_by, p4))
                                    } else {
                                        None
                                    }
                                },
                            }
                        } else if key == "owned_by"@ {
                            match spec_parse_string(s, p3) {
                                None => None,
                                Some((v, p4)) => Some((id, object, created, Some(v), p4)),
                            }
                        } else {
                            match spec_skip_value(s, p3, spec_skip_depth()) {
                                None => None,
                                Some(p4) => Some((id, object, created, owned_by, p4)),
                            }
                        };
                        match step {
                            None => None,
                            Some((id2, ob2, cr2, ow2, p4)) => {
                                let p5 = spec_skip_ws(s, p4);
                                if pos < p5 < s.len() {
                                    if s[p5] == ',' {
                                        let p6 = spec_skip_ws(s, p5 + 1);
                                        if pos < p6 <= s.len() {
                                            spec_parse_model_obj(s, p6, id2, ob2, cr2, ow2, false)
                                        } else {
                                            None
                                        }
                                    } else if s[p5] == '}' {
                                        Some(((id2, ob2, cr2, ow2), p5 + 1))
                                    } else {
                                        None
                                    }
                                } else {
                                    None
                                }
                            },
                        }
                    } else {
                        None
                    }
                } else {
                    None
                }
            },
        }
    } else {
        None
    }
}

/// One fully-read model, or nothing where a required member is missing.
pub open spec fn spec_model_of_fields(
    fields: (Option<Seq<char>>, Option<Seq<char>>, Option<u32>, Option<Seq<char>>),
) -> Option<ModelDataView> {
    match fields {
        (Some(id), Some(object), Some(created), Some(owned_by)) => Some(
            ModelDataView { id, object, created, owned_by },
        ),
        _ => None,
    }
}

/// Reads the rest of the model array: a closing bracket, or a comma and
/// one more model object.
pub open spec fn spec_parse_models_rest(s: Seq<char>, pos: int) -> Option<
    (Seq<ModelDataView>, int),
>
    decreases s.len() - pos,
{
    if pos < 0 || pos >= s.len() {
        None
    } else if s[pos] == ']' {
        Some((Seq::empty(), pos + 1))
    } else if s[pos] == ',' {
        let q = spec_skip_ws(s, pos + 1);
        if pos + 1 <= q < s.len() && s[q] == '{' {
            let q2 = spec_skip_ws(s, q + 1);
            if q < q2 <= s.len() {
                match spec_parse_model_obj(s, q2, None, None, None, None, true) {
                    None => None,
                    Some((fields, p)) => match spec_model_of_fields(fields) {
                        None => None,
                        Some(m) => {
                            let p2 = spec_skip_ws(s, p);
                            if pos < p2 <= s.len() {
                                match spec_parse_models_rest(s, p2) {
                                    None => None,
                                    Some((ms, e)) => Some((seq![m] + ms, e)),
                                }
                            } else {
                                None
                            }
                        },
                    },
                }
            } else {
                None
            }
        } else {
            None
        }
    } else {
        None
    }
}

/// Reads the whole model array.
pub open spec fn spec_parse_models_arr(s: Seq<char>, pos: int) -> Option<
    (Seq<ModelDataView>, int),
> {
    if 0 <= pos < s.len() && s[pos] == '[' {
        let p1 = spec_skip_ws(s, pos + 1);
        if pos < p1 <= s.len() {
            if p1 < s.len() && s[p1] == ']' {
                Some((Seq::empty(), p1 + 1))
            } else if p1 < s.len() && s[p1] == '{' {
                let q2 = spec_skip_ws(s, p1 + 1);
                if p1 < q2 <= s.len() {
                    match spec_parse_model_obj(s, q2, None, None, None, None, true) {
                        None => None,
                        Some((fields, p)) => match spec_model_of_fields(fields) {
                            None => None,
                            Some(m) => {
                                let p2 = spec_skip_ws(s, p);
                                if pos < p2 <= s.len() {
                                    match spec_parse_models_rest(s, p2) {
                                        None => None,
                                        Some((ms, e)) => Some((seq![m] + ms, e)),
                                    }
                                } else {
                                    None
                                }
                            },
                        },
                    }
                } else {
                    None
                }
            } else {
                None
            }
        } else {
            None
        }
    } else {
        None
    }
}

/// Reads the catalogue object: its `data` array and its `object` string,
/// both required, anything else skipped.
pub open spec fn spec_parse_models_obj(
    s: Seq<char>,
    pos: int,
    data: Option<Seq<ModelDataView>>,
    object: Option<Seq<char>>,
    first: bool,
) -> Option<((Option<Seq<ModelDataView>>, Option<Seq<char>>), int)>
    decreases s.len() - pos,
{
    if pos < 0 || pos >= s.len() {
        None
    } else if first && s[pos] == '}' {
        Some(((data, object), pos + 1))
    } else if s[pos] == '"' {
        match spec_parse_string_body(s, pos + 1) {
            None => None,
            Some((key, p1)) => {
                let p2 = spec_skip_ws(s, p1);
                if pos < p2 < s.len() && s[p2] == ':' {
                    let p3 = spec_skip_ws(s, p2 + 1);
                    if pos < p3 <= s.len() {
                        let step: Option<(Option<Seq<ModelDataView>>, Option<Seq<char>>, int)> =
                            if key == "data"@ {
                            match spec_parse_models_arr(s, p3) {
                                None => None,
                                Some((ms, p4)) => Some((Some(ms), object, p4)),
                            }
                        } else if key == "object"@ {
                            match spec_parse_string(s, p3) {
                                None => None,
                                Some((v, p4)) => Some((data, Some(v), p4)),
                            }
                        } else {
                            match spec_skip_value(s, p3, spec_skip_depth()) {
                                None => None,
                                Some(p4) => Some((data, object, p4)),
                            }
                        };
                        match step {
                            None => None,
                            Some((d2, o2, p4)) => {
                                let p5 = spec_skip_ws(s, p4);
                                if pos < p5 < s.len() {
                                    if s[p5] == ',' {
                                        let p6 = spec_skip_ws(s, p5 + 1);
                                        if pos < p6 <= s.len() {
                                            spec_parse_models_obj(s, p6, d2, o2, false)
                                        } else {
                                            None
                                        }
                                    } else if s[p5] == '}' {
                                        Some(((d2, o2), p5 + 1))
                                    } else {
                                        None
                                    }
                                } else {
                                    None
                                }
                            },
                        }
                    } else {
                        None
                    }
                } else {
                    None
                }
            },
        }
    } else {
        None
    }
}

/// What a whole listing response denotes: the catalogue, where the text
/// is exactly one catalogue object.
pub open spec fn spec_models_of_json(s: Seq<char>) -> Option<ModelsView> {
    let p0 = spec_skip_ws(s, 0);
    if 0 <= p0 < s.len() && s[p0] == '{' {
        let p1 = spec_skip_ws(s, p0 + 1);
        if p0 < p1 <= s.len() {
            match spec_parse_models_obj(s, p1, None, None, true) {
                None => None,
                Some(((data, object), p2)) => {
                    let p3 = spec_skip_ws(s, p2);
                    if p3 == s.len() {
                        match (data, object) {
                            (Some(d), Some(o)) => Some(ModelsView { data: d, object: o }),
                            _ => None,
                        }
                    } else {
                        None
                    }
                },
            }
        } else {
            None
        }
    } else {
        None
    }
}

/// Reads one model object, executable.
#[verifier::rlimit(100)]
fn parse_model_obj_ex(s: &Vec<char>, pos: usize) -> (r: Option<(ModelData, usize)>)
    requires
        pos <= s@.len(),
    ensures
        match r {
            Some((m, p)) => spec_parse_model_obj(s@, pos as int, None, None, None, None, true)
                matches Some((fields, pp)) && spec_model_of_fields(fields) == Some(m@) && pp == p
                && pos < p <= s@.len(),
            None => match spec_parse_model_obj(s@, pos as int, None, None, None, None, true) {
                Some((fields, _)) => spec_model_of_fields(fields) is None,
                None => true,
            },
        },
{
    let mut cur = pos;
    let mut first = true;
    let mut id: Option<Vec<char>> = None;
    let mut object: Option<Vec<char>> = None;
    let mut created: Option<u32> = None;
    let mut owned_by: Option<Vec<char>> = None;
    loop
        invariant
            pos <= cur <= s@.len(),
            cur == pos || !first,
            spec_parse_model_obj(s@, pos as int, None, None, None, None, true)
                == spec_parse_model_obj(
                s@,
                cur as int,
                match id {
                    Some(ref x) => Some(x@),
                    None => None,
                },
                match object {
                    Some(ref x) => Some(x@),
                    None => None,
                },
                created,
                match owned_by {
                    Some(ref x) => Some(x@),
                    None => None,
                },
                first,
            ),
        decreases s@.len() - cur,
    {
        if cur >= s.len() {
            return None;
        }
        if first && s[cur] == '}' {
            return match (id, object, created, owned_by) {
                (Some(i), Some(o), Some(c), Some(w)) => Some(
                    (
                        ModelData {
                            id: chars_to_string(&i),
                            object: chars_to_string(&o),
                            created: c,
                            owned_by: chars_to_string(&w),
                        },
                        cur + 1,
                    ),
                ),
                _ => None,
            };
        }
        if s[cur] != '"' {
            return None;
        }
        let (key, p1) = match parse_string_body(s, cur + 1) {
            Some(v) => v,
            None => {
                return None;
            },
        };
        let p2 = skip_ws_ex(s, p1);
        if p2 >= s.len() || s[p2] != ':' {
            return None;
        }
        let p3 = skip_ws_ex(s, p2 + 1);
        let p4: usize;
        if chars_eq_lit(&key, "id") {
            let (v, q) = match parse_string_ex(s, p3) {
                Some(v) => v,
                None => {
                    return None;
                },
            };
            id = Some(v);
            p4 = q;
        } else if chars_eq_lit(&key, "object") {
            let (v, q) = match parse_string_ex(s, p3) {
                Some(v) => v,
                None => {
                    return None;
                },
            };
            object = Some(v);
            p4 = q;
        } else if chars_eq_lit(&key, "created") {
            let (v, q) = match parse_nat(s, p3) {
                Some(v) => v,
                None => {
                    proof {
                        match spec_parse_nat(s@, p3 as int) {
                            Some((v, _)) => {
                                assert(v > u64::MAX);
                            },
                            None => {},
                        }
                    }
                    return None;
                },
            };
            if v > u32::MAX as u64 {
                return None;
            }
            created = Some(v as u32);
            p4 = q;
        } else if chars_eq_lit(&key, "owned_by") {
            let (v, q) = match parse_string_ex(s, p3) {
                Some(v) => v,
                None => {
                    return None;
                },
            };
            owned_by = Some(v);
            p4 = q;
        } else {
            p4 = match skip_value_ex(s, p3, 64) {
                Some(q) => q,
                None => {
                    return None;
                },
            };
        }
        let p5 = skip_ws_ex(s, p4);
        if p5 >= s.len() {
            return None;
        }
        if s[p5] == ',' {
            let p6 = skip_ws_ex(s, p5 + 1);
            cur = p6;
            first = false;
        } else if s[p5] == '}' {
            return match (id, object, created, owned_by) {
                (Some(i), Some(o), Some(c), Some(w)) => Some(
                    (
                        ModelData {
                            id: chars_to_string(&i),
                            object: chars_to_string(&o),
                            created: c,
                            owned_by: chars_to_string(&w),
                        },
                        p5 + 1,
                    ),
                ),
                _ => None,
            };
        } else {
            return None;
        }
    }
}

/// Reads the whole model array, executable.
fn parse_models_arr_ex(s: &Vec<char>, pos: usize) -> (r: Option<(Vec<ModelData>, usize)>)
    requires
        pos <= s@.len(),
    ensures
        match r {
            Some((ms, p)) => spec_parse_models_arr(s@, pos as int) == Some(
                (Seq::new(ms@.len(), |i: int| ms@[i]@), p as int),
            ) && pos < p <= s@.len(),
            None => spec_parse_models_arr(s@, pos as int) is None,
        },
{
    if pos >= s.len() || s[pos] != '[' {
        return None;
    }
    let p1 = skip_ws_ex(s, pos + 1);
    if p1 < s.len() && s[p1] == ']' {
        let ms: Vec<ModelData> = Vec::new();
        proof {
            assert(Seq::new(0, |i: int| ms@[i]@) =~= Seq::<ModelDataView>::empty());
        }
        return Some((ms, p1 + 1));
    }
    if p1 >= s.len() || s[p1] != '{' {
        return None;
    }
    let q2 = skip_ws_ex(s, p1 + 1);
    let (m0, p) = match parse_model_obj_ex(s, q2) {
        Some(v) => v,
        None => {
            return None;
        },
    };
    let p2 = skip_ws_ex(s, p);
    let mut acc: Vec<ModelData> = Vec::new();
    acc.push(m0);
    let mut cur: usize = p2;
    proof {
        assert(Seq::new(acc@.len(), |i: int| acc@[i]@) =~= seq![m0@]);
    }
    loop
        invariant
            pos < cur <= s@.len(),
            acc@.len() >= 1,
            match spec_parse_models_rest(s@, cur as int) {
                Some((ms, e)) => spec_parse_models_arr(s@, pos as int) == Some(
                    (Seq::new(acc@.len(), |i: int| acc@[i]@) + ms, e),
                ),
                None => spec_parse_models_arr(s@, pos as int) is None,
            },
        decreases s@.len() - cur,
    {
        if cur >= s.len() {
            return None;
        }
        if s[cur] == ']' {
            proof {
                assert(spec_parse_models_rest(s@, cur as int) == Some(
                    (Seq::<ModelDataView>::empty(), cur + 1),
                ));
                assert(Seq::new(acc@.len(), |i: int| acc@[i]@) + Seq::<ModelDataView>::empty()
                    =~= Seq::new(acc@.len(), |i: int| acc@[i]@));
            }
            return Some((acc, cur + 1));
        }
        if s[cur] != ',' {
            return None;
        }
        let q = skip_ws_ex(s, cur + 1);
        if q >= s.len() || s[q] != '{' {
            return None;
        }
        let qq = skip_ws_ex(s, q + 1);
        let ghost pre = Seq::new(acc@.len(), |i: int| acc@[i]@);
        let (m, p) = match parse_model_obj_ex(s, qq) {
            Some(v) => v,
            None => {
                return None;
            },
        };
        let pnext = skip_ws_ex(s, p);
        acc.push(m);
        proof {
            assert(Seq::new(acc@.len(), |i: int| acc@[i]@) =~= pre.push(m@));
            match spec_parse_models_rest(s@, pnext as int) {
                Some((ms, e)) => {
                    assert(spec_parse_models_rest(s@, cur as int) == Some((seq![m@] + ms, e)));
                    assert(pre + (seq![m@] + ms) =~= pre.push(m@) + ms);
                },
                None => {
                    assert(spec_parse_models_rest(s@, cur as int) is None);
                },
            }
        }
        cur = pnext;
    }
}

/// Reads the catalogue object's members, executable.
#[verifier::rlimit(100)]
fn parse_models_obj_ex(s: &Vec<char>, pos: usize) -> (r: Option<
    ((Option<Vec<ModelData>>, Option<Vec<char>>), usize),
>)
    requires
        pos <= s@.len(),
    ensures
        match r {
            Some(((data, object), p)) => ({
                let dv = match data {
                    Some(ref ms) => Some(Seq::new(ms@.len(), |i: int| ms@[i]@)),
                    None => None::<Seq<ModelDataView>>,
                };
                let ov = match object {
                    Some(ref x) => Some(x@),
                    None => None::<Seq<char>>,
                };
                spec_parse_models_obj(s@, pos as int, None, None, true) == Some(
                    ((dv, ov), p as int),
                ) && pos < p <= s@.len()
            }),
            None => spec_parse_models_obj(s@, pos as int, None, None, true) is None,
        },
{
    let mut cur = pos;
    let mut first = true;
    let mut data: Option<Vec<ModelData>> = None;
    let mut object: Option<Vec<char>> = None;
    loop
        invariant
            pos <= cur <= s@.len(),
            cur == pos || !first,
            spec_parse_models_obj(s@, pos as int, None, None, true) == spec_parse_models_obj(
                s@,
                cur as int,
                match data {
                    Some(ref ms) => Some(Seq::new(ms@.len(), |i: int| ms@[i]@)),
                    None => None,
                },
                match object {
                    Some(ref x) => Some(x@),
                    None => None,
                },
                first,
            ),
        decreases s@.len() - cur,
    {
        if cur >= s.len() {
            return None;
        }
        if first && s[cur] == '}' {
            return Some(((data, object), cur + 1));
        }
        if s[cur] != '"' {
            return None;
        }
        let (key, q1) = match parse_string_body(s, cur + 1) {
            Some(v) => v,
            None => {
                return None;
            },
        };
        let q2 = skip_ws_ex(s, q1);
        if q2 >= s.len() || s[q2] != ':' {
            return None;
        }
        let q3 = skip_ws_ex(s, q2 + 1);
        let q4: usize;
        if chars_eq_lit(&key, "data") {
            let (ms, p) = match parse_models_arr_ex(s, q3) {
                Some(v) => v,
                None => {
                    return None;
                },
            };
            data = Some(ms);
            q4 = p;
        } else if chars_eq_lit(&key, "object") {
            let (v, p) = match parse_string_ex(s, q3) {
                Some(v) => v,
                None => {
                    return None;
                },
            };
            object = Some(v);
            q4 = p;
        } else {
            q4 = match skip_value_ex(s, q3, 64) {
                Some(q) => q,
                None => {
                    return None;
                },
            };
        }
        let q5 = skip_ws_ex(s, q4);
        if q5 >= s.len() {
            return None;
        }
        if s[q5] == ',' {
            let q6 = skip_ws_ex(s, q5 + 1);
            cur = q6;
            first = false;
        } else if s[q5] == '}' {
            return Some(((data, object), q5 + 1));
        } else {
            return None;
        }
    }
}

/// Reads a whole listing response: the catalogue and nothing else,
/// executable.
pub fn parse_models(body: &str) -> (r: Option<Models>)
    ensures
        match r {
            Some(m) => spec_models_of_json(body@) == Some(m@),
            None => spec_models_of_json(body@) is None,
        },
{
    let s = str_to_chars(body);
    let p0 = skip_ws_ex(&s, 0);
    if p0 >= s.len() || s[p0] != '{' {
        return None;
    }
    let p1 = skip_ws_ex(&s, p0 + 1);
    let ((data, object), end) = match parse_models_obj_ex(&s, p1) {
        Some(v) => v,
        None => {
            return None;
        },
    };
    let p3 = skip_ws_ex(&s, end);
    if p3 != s.len() {
        return None;
    }
    match (data, object) {
        (Some(d), Some(o)) => {
            let m = Models { data: d, object: chars_to_string(&o) };
            proof {
                assert(m@ =~= spec_models_of_json(s@)->0);
            }
            Some(m)
        },
        _ => None,
    }
}

} // verus!
