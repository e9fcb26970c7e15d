//! Security scheme parsing.

use vstd::prelude::*;

use crate::model::{SecuritySchemeData, SecuritySchemeEntry};
use crate::ordmap::{
    lemma_map_kv_view_insert, lemma_map_kv_view_sorted, map_kv_view, spec_kv_insert,
    spec_sorted_kv, OrdMap,
};
use crate::strings::{contains_seq, str_contains};

verus! {

/// HTTP authentication methods.
#[derive(Debug, Clone, Copy, PartialEq, Eq, Structural)]
pub enum SecurityScheme {
    /// HTTP basic auth.
    BasicAuth,
}

/// The value-view function for [`SecurityScheme`] (schemes are plain values).
pub open spec fn scheme_view_fn() -> spec_fn(SecurityScheme) -> SecurityScheme {
    |s: SecurityScheme| s
}

/// What folding the raw scheme entries into the map `acc` and the
/// diagnostic list `diags` yields. Only an inline HTTP scheme without a
/// bearer format and whose scheme string contains "basic" is accepted; every
/// other kind is skipped, its name appended to the diagnostics.
pub open spec fn spec_security_schemes(
    raw: Seq<(String, SecuritySchemeEntry)>,
    acc: Seq<(Seq<char>, SecurityScheme)>,
    diags: Seq<Seq<char>>,
) -> (Seq<(Seq<char>, SecurityScheme)>, Seq<Seq<char>>)
    decreases raw,
{
    if raw.len() == 0 {
        (acc, diags)
    } else {
        let name = raw[0].0@;
        match raw[0].1 {
            SecuritySchemeEntry::Referenced => spec_security_schemes(
                raw.drop_first(),
                acc,
                diags.push(name),
            ),
            SecuritySchemeEntry::Inline(data) => match data {
                SecuritySchemeData::NonHttp => spec_security_schemes(
                    raw.drop_first(),
                    acc,
                    diags.push(name),
                ),
                SecuritySchemeData::Http { scheme, bearer_format } => if bearer_format is Some {
                    spec_security_schemes(raw.drop_first(), acc, diags.push(name))
                } else if contains_seq(scheme@, "basic"@) {
                    spec_security_schemes(
                        raw.drop_first(),
                        spec_kv_insert(acc, name, SecurityScheme::BasicAuth),
                        diags,
                    )
                } else {
                    spec_security_schemes(raw.drop_first(), acc, diags.push(name))
                },
            },
        }
    }
}

/// Parse the document's security schemes into a name-to-scheme map, plus a
/// diagnostic list naming every skipped scheme. Absence from the map silently
/// downgrades an operation's stated security requirement to
/// "unauthenticated" at generation time.
pub fn security_schemes(raw: &Vec<(String, SecuritySchemeEntry)>) -> (r: (
    OrdMap<SecurityScheme>,
    Vec<String>,
))
    ensures
        spec_security_schemes(raw@, Seq::empty(), Seq::empty()) == (
            map_kv_view(r.0.entries@, scheme_view_fn()),
            crate::parse::strs_view(r.1@),
        ),
        r.0.wf(),
        spec_sorted_kv(map_kv_view(r.0.entries@, scheme_view_fn())),
{
    let n = raw.len();
    let mut m: OrdMap<SecurityScheme> = OrdMap::new();
    let mut diags: Vec<String> = Vec::new();
    let mut i: usize = 0;
    proof {
        assert(raw@.skip(0) =~= raw@);
        assert(map_kv_view(m.entries@, scheme_view_fn()) =~= Seq::<
            (Seq<char>, SecurityScheme),
        >::empty());
        assert(crate::parse::strs_view(diags@) =~= Seq::<Seq<char>>::empty());
    }
    while i < n
        invariant
            0 <= i <= n,
            n == raw@.len(),
            m.wf(),
            spec_security_schemes(raw@, Seq::empty(), Seq::empty()) == spec_security_schemes(
                raw@.skip(i as int),
                map_kv_view(m.entries@, scheme_view_fn()),
                crate::parse::strs_view(diags@),
            ),
        decreases n - i,
    {
        proof {
            assert(raw@.skip(i as int)[0] == raw@[i as int]);
            assert(raw@.skip(i as int).drop_first() =~= raw@.skip(i as int + 1));
        }
        let name = &raw[i].0;
        let mut accepted: bool = false;
        match &raw[i].1 {
            SecuritySchemeEntry::Referenced => {},
            SecuritySchemeEntry::Inline(data) => {
                match data {
                    SecuritySchemeData::NonHttp => {},
                    SecuritySchemeData::Http { scheme, bearer_format } => {
                        match bearer_format {
                            Some(_) => {},
                            None => {
                                if str_contains(scheme.as_str(), "basic") {
                                    accepted = true;
                                }
                            },
                        }
                    },
                }
            },
        }
        if accepted {
            proof {
                lemma_map_kv_view_insert(
                    m.entries@,
                    *name,
                    SecurityScheme::BasicAuth,
                    scheme_view_fn(),
                );
            }
            m.insert(name.clone(), SecurityScheme::BasicAuth);
        } else {
            let ghost diags_before = diags@;
            diags.push(name.clone());
            proof {
                assert(crate::parse::strs_view(diags@) =~= crate::parse::strs_view(
                    diags_before,
                ).push(name@));
            }
        }
        i = i + 1;
    }
    proof {
        assert(raw@.skip(n as int) =~= Seq::<(String, SecuritySchemeEntry)>::empty());
        lemma_map_kv_view_sorted(m.entries@, scheme_view_fn());
    }
    (m, diags)
}

} // verus!
