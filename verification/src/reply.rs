use vstd::prelude::*;
use crate::errors::AiError;
use crate::json::{arr_view, obj_view, Json, JsonV};
use crate::parse::{parse_json_text, sp_parse_text};
use crate::text::str_eq;

verus! {

// The remote service answers with a JSON object of the shape
// {"candidates":[{"content":{"parts":[{"text": ...}]}}]}, possibly with
// further members everywhere, which are ignored. A named member must be
// present exactly once; a missing or repeated member, or one of the wrong
// shape, makes the reply malformed.

/// How many members of `m` carry the key `k`.
pub open spec fn key_count(m: Seq<(Seq<char>, JsonV)>, k: Seq<char>) -> nat
    decreases m.len(),
{
    if m.len() == 0 {
        0
    } else {
        (if m[0].0 == k {
            1nat
        } else {
            0nat
        }) + key_count(m.drop_first(), k)
    }
}

/// The value of the first member of `m` carrying the key `k`.
pub open spec fn key_lookup(m: Seq<(Seq<char>, JsonV)>, k: Seq<char>) -> Option<JsonV>
    decreases m.len(),
{
    if m.len() == 0 {
        None
    } else if m[0].0 == k {
        Some(m[0].1)
    } else {
        key_lookup(m.drop_first(), k)
    }
}

/// The member carrying the key `k`, if there is exactly one.
pub open spec fn the_member(m: Seq<(Seq<char>, JsonV)>, k: Seq<char>) -> Option<JsonV> {
    if key_count(m, k) == 1 {
        key_lookup(m, k)
    } else {
        None
    }
}

/// The text of a well-shaped part: an object whose one `text` member is a
/// string.
pub open spec fn part_text(p: JsonV) -> Option<Seq<char>> {
    match p {
        JsonV::Obj(m) => match the_member(m, "text"@) {
            Some(v) => match v {
                JsonV::Str(t) => Some(t),
                _ => None,
            },
            None => None,
        },
        _ => None,
    }
}

/// The parts of a well-shaped candidate: an object whose one `content`
/// member is an object whose one `parts` member is an array of well-shaped
/// parts.
pub open spec fn candidate_parts(c: JsonV) -> Option<Seq<JsonV>> {
    match c {
        JsonV::Obj(m) => match the_member(m, "content"@) {
            Some(cv) => match cv {
                JsonV::Obj(cm) => match the_member(cm, "parts"@) {
                    Some(pv) => match pv {
                        JsonV::Arr(ps) => {
                            if forall|i: int|
                                0 <= i < ps.len() ==> (#[trigger] part_text(ps[i])) is Some {
                                Some(ps)
                            } else {
                                None
                            }
                        },
                        _ => None,
                    },
                    None => None,
                },
                _ => None,
            },
            None => None,
        },
        _ => None,
    }
}

/// What a parsed reply yields: the first part's text of the first
/// candidate, `EmptyResponse` if there is no candidate or the first
/// candidate has no part, and `MalformedResponse` for any value outside
/// the expected shape.
pub open spec fn reply_of(v: JsonV) -> Result<Seq<char>, AiError> {
    match v {
        JsonV::Obj(m) => match the_member(m, "candidates"@) {
            Some(cv) => match cv {
                JsonV::Arr(cs) => {
                    if !(forall|i: int|
                        0 <= i < cs.len() ==> (#[trigger] candidate_parts(cs[i])) is Some) {
                        Err(AiError::MalformedResponse)
                    } else if cs.len() == 0 {
                        Err(AiError::EmptyResponse)
                    } else {
                        match candidate_parts(cs[0]) {
                            Some(ps) => {
                                if ps.len() == 0 {
                                    Err(AiError::EmptyResponse)
                                } else {
                                    match part_text(ps[0]) {
                                        Some(t) => Ok(t),
                                        None => Err(AiError::MalformedResponse),
                                    }
                                }
                            },
                            None => Err(AiError::MalformedResponse),
                        }
                    }
                },
                _ => Err(AiError::MalformedResponse),
            },
            None => Err(AiError::MalformedResponse),
        },
        _ => Err(AiError::MalformedResponse),
    }
}

/// What unwrapping a remote body yields: `reply_of` its JSON value, and
/// `MalformedResponse` where the body is not well-formed JSON.
pub open spec fn reply_text_spec(body: Seq<char>) -> Result<Seq<char>, AiError> {
    match sp_parse_text(body) {
        Some(v) => reply_of(v),
        None => Err(AiError::MalformedResponse),
    }
}

/// How an executable extraction outcome corresponds to the mathematical
/// one.
pub open spec fn reply_rel(r: Result<String, AiError>, sr: Result<Seq<char>, AiError>) -> bool {
    match r {
        Ok(t) => sr matches Ok(st) && st == t@,
        Err(e) => sr == Err::<Seq<char>, AiError>(e),
    }
}

/// Finds the member carrying the key `k`, if there is exactly one.
fn the_member_exec<'a>(m: &'a Vec<(String, Json)>, k: &str) -> (r: Option<&'a Json>)
    ensures
        (match r {
            Some(v) => the_member(obj_view(m@), k@) == Some(v@),
            None => the_member(obj_view(m@), k@) is None,
        }),
{
    let ghost mv = obj_view(m@);
    proof {
        assert(mv.skip(0) =~= mv);
    }
    let mut count: usize = 0;
    let mut first: Option<usize> = None;
    let mut i: usize = 0;
    while i < m.len()
        invariant
            i <= m@.len(),
            mv == obj_view(m@),
            mv.len() == m@.len(),
            count <= i,
            key_count(mv, k@) == count + key_count(mv.skip(i as int), k@),
            (match first {
                Some(f) => f < i && mv[f as int].0 == k@ && count >= 1 && key_lookup(mv, k@)
                    == Some(mv[f as int].1),
                None => count == 0 && key_lookup(mv, k@) == key_lookup(mv.skip(i as int), k@),
            }),
        decreases m@.len() - i,
    {
        proof {
            assert(mv.skip(i as int).len() == mv.len() - i);
            assert(mv.skip(i as int)[0] == mv[i as int]);
            assert(mv.skip(i as int).drop_first() =~= mv.skip(i + 1 as int));
            assert(mv[i as int].0 == m@[i as int].0@);
        }
        if str_eq(m[i].0.as_str(), k) {
            if count == 0 {
                first = Some(i);
            }
            count = count + 1;
        }
        i = i + 1;
    }
    proof {
        assert(mv.skip(m@.len() as int) =~= Seq::empty());
    }
    if count == 1 {
        match first {
            Some(f) => Some(&m[f].1),
            None => None,
        }
    } else {
        None
    }
}

/// Extracts the text of a well-shaped part.
fn part_text_exec(p: &Json) -> (r: Option<String>)
    ensures
        (match r {
            Some(t) => part_text(p@) == Some(t@),
            None => part_text(p@) is None,
        }),
{
    match p {
        Json::Obj(m) => match the_member_exec(m, "text") {
            Some(v) => match v {
                Json::Str(t) => Some(t.clone()),
                _ => None,
            },
            None => None,
        },
        _ => None,
    }
}

/// Extracts the parts of a well-shaped candidate.
fn candidate_parts_exec<'a>(c: &'a Json) -> (r: Option<&'a Vec<Json>>)
    ensures
        (match r {
            Some(ps) => candidate_parts(c@) == Some(arr_view(ps@)),
            None => candidate_parts(c@) is None,
        }),
{
    match c {
        Json::Obj(m) => match the_member_exec(m, "content") {
            Some(cv) => match cv {
                Json::Obj(cm) => match the_member_exec(cm, "parts") {
                    Some(pv) => match pv {
                        Json::Arr(ps) => {
                            let ghost psv = arr_view(ps@);
                            let mut i: usize = 0;
                            #[verifier::loop_isolation(false)]
                            while i < ps.len()
                                invariant
                                    i <= ps@.len(),
                                    psv == arr_view(ps@),
                                    psv.len() == ps@.len(),
                                    forall|j: int|
                                        0 <= j < i ==> (#[trigger] part_text(psv[j])) is Some,
                                decreases ps@.len() - i,
                            {
                                proof {
                                    assert(psv[i as int] == ps@[i as int]@);
                                }
                                match part_text_exec(&ps[i]) {
                                    Some(_) => {
                                        i = i + 1;
                                    },
                                    None => {
                                        proof {
                                            assert(part_text(psv[i as int]) is None);
                                            assert(!(forall|j: int|
                                                0 <= j < psv.len() ==> (#[trigger] part_text(
                                                    psv[j],
                                                )) is Some));
                                        }
                                        return None;
                                    },
                                }
                            }
                            Some(ps)
                        },
                        _ => None,
                    },
                    None => None,
                },
                _ => None,
            },
            None => None,
        },
        _ => None,
    }
}

/// Extracts the answer text from a parsed reply value.
fn extract_reply(v: &Json) -> (r: Result<String, AiError>)
    ensures
        reply_rel(r, reply_of(v@)),
{
    match v {
        Json::Obj(m) => match the_member_exec(m, "candidates") {
            Some(cv) => match cv {
                Json::Arr(cs) => {
                    let ghost csv = arr_view(cs@);
                    let mut i: usize = 0;
                    #[verifier::loop_isolation(false)]
                    while i < cs.len()
                        invariant
                            i <= cs@.len(),
                            csv == arr_view(cs@),
                            csv.len() == cs@.len(),
                            forall|j: int|
                                0 <= j < i ==> (#[trigger] candidate_parts(csv[j])) is Some,
                        decreases cs@.len() - i,
                    {
                        proof {
                            assert(csv[i as int] == cs@[i as int]@);
                        }
                        match candidate_parts_exec(&cs[i]) {
                            Some(_) => {
                                i = i + 1;
                            },
                            None => {
                                proof {
                                    assert(candidate_parts(csv[i as int]) is None);
                                    assert(!(forall|j: int|
                                        0 <= j < csv.len() ==> (#[trigger] candidate_parts(
                                            csv[j],
                                        )) is Some));
                                }
                                return Err(AiError::MalformedResponse);
                            },
                        }
                    }
                    if cs.len() == 0 {
                        return Err(AiError::EmptyResponse);
                    }
                    proof {
                        assert(csv[0] == cs@[0]@);
                    }
                    match candidate_parts_exec(&cs[0]) {
                        Some(ps) => {
                            if ps.len() == 0 {
                                return Err(AiError::EmptyResponse);
                            }
                            proof {
                                assert(arr_view(ps@)[0] == ps@[0]@);
                            }
                            match part_text_exec(&ps[0]) {
                                Some(t) => Ok(t),
                                None => {
                                    proof {
                                        assert(false);
                                    }
                                    Err(AiError::MalformedResponse)
                                },
                            }
                        },
                        None => {
                            proof {
                                assert(false);
                            }
                            Err(AiError::MalformedResponse)
                        },
                    }
                },
                _ => Err(AiError::MalformedResponse),
            },
            None => Err(AiError::MalformedResponse),
        },
        _ => Err(AiError::MalformedResponse),
    }
}

/// Unwraps a remote reply body into the answer text or the error that the
/// body's shape dictates.
pub fn parse_reply(body: &str) -> (r: Result<String, AiError>)
    ensures
        reply_rel(r, reply_text_spec(body@)),
{
    match parse_json_text(body) {
        Some(v) => extract_reply(&v),
        None => Err(AiError::MalformedResponse),
    }
}

} // verus!
