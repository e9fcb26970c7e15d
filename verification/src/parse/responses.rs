//! Response parsing.

use vstd::prelude::*;

use crate::model::{MediaType, ResponseEntry};
use crate::ordmap::{
    lemma_map_kv_view_insert, map_kv_view, spec_kv_insert, spec_sorted_kv, OrdMap,
};
use crate::parse::error::ParseKind;
use crate::parse::types::{spec_resolve, type_result_view, type_v_wf, type_view, Type, TypeV};
use crate::strings::str_eq;

verus! {

/// The value-view function for [`Type`].
pub open spec fn type_view_fn() -> spec_fn(Type) -> TypeV {
    |t: Type| type_view(t)
}

/// Whether every value type in `s` is well formed.
pub open spec fn types_wf_kv(s: Seq<(Seq<char>, TypeV)>) -> bool {
    forall|i: int| 0 <= i < s.len() ==> type_v_wf(#[trigger] s[i].1)
}

/// What consulting a content map for the JSON media type yields: nothing
/// when no JSON media type is declared; `Any` when it is declared without a
/// schema — deliberate leniency for under-specified documents; otherwise the
/// schema's resolved type. Other media types are ignored.
pub open spec fn spec_content_type(content: Seq<(String, MediaType)>) -> Result<
    Option<TypeV>,
    ParseKind,
>
    decreases content, 25int,
{
    if content.len() == 0 {
        Ok(None)
    } else if content[0].0@ == "application/json"@ {
        match content[0].1.schema {
            None => Ok(Some(TypeV::Any)),
            Some(sch) => match spec_resolve(sch) {
                Err(e) => Err(e),
                Ok(t) => Ok(Some(t)),
            },
        }
    } else {
        spec_content_type(content.drop_first())
    }
}

/// What folding the given response entries into the status map `acc` yields:
/// a referenced response is fatal; an inline response without a JSON media
/// type is skipped; otherwise its type is inserted under its status code.
pub open spec fn spec_responses_from(
    entries: Seq<(String, ResponseEntry)>,
    acc: Seq<(Seq<char>, TypeV)>,
) -> Result<Seq<(Seq<char>, TypeV)>, ParseKind>
    decreases entries, 28int,
{
    if entries.len() == 0 {
        Ok(acc)
    } else {
        match entries[0].1 {
            ResponseEntry::Referenced => Err(ParseKind::Unimplemented),
            ResponseEntry::Inline(resp) => match spec_content_type(resp.content@) {
                Err(e) => Err(e),
                Ok(None) => spec_responses_from(entries.drop_first(), acc),
                Ok(Some(t)) => spec_responses_from(
                    entries.drop_first(),
                    spec_kv_insert(acc, entries[0].0@, t),
                ),
            },
        }
    }
}

/// The model of a JSON content lookup result.
pub open spec fn opt_type_result_view(r: Result<Option<Type>, ParseKind>) -> Result<
    Option<TypeV>,
    ParseKind,
> {
    match r {
        Ok(None) => Ok(None),
        Ok(Some(t)) => Ok(Some(type_view(t))),
        Err(e) => Err(e),
    }
}

/// Consult a content map for the JSON media type; see [`spec_content_type`].
pub fn content_json_type(content: &Vec<(String, MediaType)>) -> (r: Result<
    Option<Type>,
    ParseKind,
>)
    ensures
        opt_type_result_view(r) == spec_content_type(content@),
        r matches Ok(Some(t)) ==> type_v_wf(type_view(t)),
{
    let n = content.len();
    let mut j: usize = 0;
    proof {
        assert(content@.skip(0) =~= content@);
    }
    while j < n
        invariant
            0 <= j <= n,
            n == content@.len(),
            spec_content_type(content@) == spec_content_type(content@.skip(j as int)),
        decreases n - j,
    {
        proof {
            assert(content@.skip(j as int)[0] == content@[j as int]);
            assert(content@.skip(j as int).drop_first() =~= content@.skip(j as int + 1));
        }
        if str_eq(content[j].0.as_str(), "application/json") {
            match &content[j].1.schema {
                None => {
                    return Ok(Some(Type::Any));
                },
                Some(sch) => {
                    match Type::try_from_schema(sch) {
                        Err(e) => {
                            return Err(e);
                        },
                        Ok(t) => {
                            return Ok(Some(t));
                        },
                    }
                },
            }
        }
        j = j + 1;
    }
    proof {
        assert(content@.skip(n as int) =~= Seq::<(String, MediaType)>::empty());
    }
    Ok(None)
}

/// Responses that an API call can return.
#[derive(Debug, PartialEq, Eq)]
pub struct Responses {
    /// A map of HTTP status-code string to the JSON response's type.
    ///
    /// Other serialization formats are currently unsupported.
    pub responses: OrdMap<Type>,
}

impl View for Responses {
    type V = Seq<(Seq<char>, TypeV)>;

    open spec fn view(&self) -> Seq<(Seq<char>, TypeV)> {
        map_kv_view(self.responses.entries@, type_view_fn())
    }
}

impl Responses {
    /// Resolve declared responses into a status-code-to-type map. Only
    /// inline response objects are usable: a referenced response fails the
    /// whole resolution. Only the JSON media type is consulted.
    pub fn try_from_entries(entries: &Vec<(String, ResponseEntry)>) -> (r: Result<
        Responses,
        ParseKind,
    >)
        ensures
            match r {
                Ok(resp) => spec_responses_from(entries@, Seq::empty()) == Ok::<
                    Seq<(Seq<char>, TypeV)>,
                    ParseKind,
                >(resp@) && resp.responses.wf() && spec_sorted_kv(resp@) && types_wf_kv(resp@),
                Err(e) => spec_responses_from(entries@, Seq::empty()) == Err::<
                    Seq<(Seq<char>, TypeV)>,
                    ParseKind,
                >(e),
            },
    {
        let n = entries.len();
        let mut m: OrdMap<Type> = OrdMap::new();
        let mut i: usize = 0;
        proof {
            assert(entries@.skip(0) =~= entries@);
            assert(map_kv_view(m.entries@, type_view_fn()) =~= Seq::<(Seq<char>, TypeV)>::empty());
        }
        while i < n
            invariant
                0 <= i <= n,
                n == entries@.len(),
                m.wf(),
                types_wf_kv(map_kv_view(m.entries@, type_view_fn())),
                spec_responses_from(entries@, Seq::empty()) == spec_responses_from(
                    entries@.skip(i as int),
                    map_kv_view(m.entries@, type_view_fn()),
                ),
            decreases n - i,
        {
            proof {
                assert(entries@.skip(i as int)[0] == entries@[i as int]);
                assert(entries@.skip(i as int).drop_first() =~= entries@.skip(i as int + 1));
            }
            match &entries[i].1 {
                ResponseEntry::Referenced => {
                    return Err(ParseKind::Unimplemented);
                },
                ResponseEntry::Inline(resp) => {
                    match content_json_type(&resp.content) {
                        Err(e) => {
                            return Err(e);
                        },
                        Ok(None) => {},
                        Ok(Some(t)) => {
                            let code = entries[i].0.clone();
                            proof {
                                lemma_map_kv_view_insert(m.entries@, code, t, type_view_fn());
                                lemma_types_wf_kv_insert(
                                    map_kv_view(m.entries@, type_view_fn()),
                                    code@,
                                    type_view(t),
                                );
                            }
                            m.insert(code, t);
                        },
                    }
                },
            }
            i = i + 1;
        }
        proof {
            assert(entries@.skip(n as int) =~= Seq::<(String, ResponseEntry)>::empty());
            crate::ordmap::lemma_map_kv_view_sorted(m.entries@, type_view_fn());
        }
        Ok(Responses { responses: m })
    }
}

/// Inserting a well-formed type keeps every value type well formed.
proof fn lemma_types_wf_kv_insert(s: Seq<(Seq<char>, TypeV)>, k: Seq<char>, t: TypeV)
    requires
        types_wf_kv(s),
        type_v_wf(t),
    ensures
        types_wf_kv(spec_kv_insert(s, k, t)),
    decreases s.len(),
{
    let r = spec_kv_insert(s, k, t);
    if s.len() == 0 {
    } else if crate::strings::lex_lt(s[0].0, k) {
        assert(types_wf_kv(s.drop_first()));
        lemma_types_wf_kv_insert(s.drop_first(), k, t);
        let tail = spec_kv_insert(s.drop_first(), k, t);
        assert forall|i: int| 0 <= i < r.len() implies type_v_wf(#[trigger] r[i].1) by {
            if i > 0 {
                assert(r[i] == tail[i - 1]);
            }
        }
    } else if s[0].0 == k {
        assert forall|i: int| 0 <= i < r.len() implies type_v_wf(#[trigger] r[i].1) by {
            if i > 0 {
                assert(r[i] == s.drop_first()[i - 1]);
                assert(s.drop_first()[i - 1] == s[i]);
            }
        }
    } else {
        assert forall|i: int| 0 <= i < r.len() implies type_v_wf(#[trigger] r[i].1) by {
            if i > 0 {
                assert(r[i] == s[i - 1]);
            }
        }
    }
}

} // verus!
