//! Association maps kept sorted by key, the library's stand-in for an ordered
//! map: one keyed by a single string, one keyed by a (method, path) pair.
//! Iteration order over a well-formed map is strictly increasing in the key,
//! which is what makes every rendering pass deterministic.

use vstd::prelude::*;

use crate::strings::{lemma_lex_lt_trans, lemma_lex_lt_trichotomy, lex_lt, str_eq, str_lt};

verus! {

/// An association map over string keys, kept sorted by [`lex_lt`].
#[derive(Debug, PartialEq, Eq)]
pub struct OrdMap<V> {
    /// Key/value pairs, strictly increasing in the key when well formed.
    pub entries: Vec<(String, V)>,
}

/// The result of inserting `(key, v)` into `s` before the first entry whose
/// key is not below `key@`, replacing an entry with an equal key.
pub open spec fn spec_ord_insert<V>(s: Seq<(String, V)>, key: String, v: V) -> Seq<(String, V)>
    decreases s.len(),
{
    if s.len() == 0 {
        seq![(key, v)]
    } else if lex_lt(s[0].0@, key@) {
        seq![s[0]] + spec_ord_insert(s.drop_first(), key, v)
    } else if s[0].0@ == key@ {
        seq![(key, v)] + s.drop_first()
    } else {
        seq![(key, v)] + s
    }
}

/// The value at the first entry of `s` whose key reads `k`, if any.
pub open spec fn spec_ord_get<V>(s: Seq<(String, V)>, k: Seq<char>) -> Option<V>
    decreases s.len(),
{
    if s.len() == 0 {
        Option::None
    } else if s[0].0@ == k {
        Option::Some(s[0].1)
    } else {
        spec_ord_get(s.drop_first(), k)
    }
}

/// Whether the keys of `s` are strictly increasing.
pub open spec fn spec_sorted<V>(s: Seq<(String, V)>) -> bool {
    forall|i: int, j: int| 0 <= i < j < s.len() ==> lex_lt(s[i].0@, s[j].0@)
}

/// `spec_ord_insert` over view-level pairs: the result of inserting `(k, v)`
/// into `s` before the first entry whose key is not below `k`, replacing an
/// entry with an equal key.
pub open spec fn spec_kv_insert<V>(s: Seq<(Seq<char>, V)>, k: Seq<char>, v: V) -> Seq<
    (Seq<char>, V),
>
    decreases s.len(),
{
    if s.len() == 0 {
        seq![(k, v)]
    } else if lex_lt(s[0].0, k) {
        seq![s[0]] + spec_kv_insert(s.drop_first(), k, v)
    } else if s[0].0 == k {
        seq![(k, v)] + s.drop_first()
    } else {
        seq![(k, v)] + s
    }
}

/// Whether the view-level keys of `s` are strictly increasing.
pub open spec fn spec_sorted_kv<V>(s: Seq<(Seq<char>, V)>) -> bool {
    forall|i: int, j: int| 0 <= i < j < s.len() ==> lex_lt(s[i].0, s[j].0)
}

/// Inserting preserves strictly increasing keys.
pub proof fn lemma_ord_insert_sorted<V>(s: Seq<(String, V)>, key: String, v: V)
    requires
        spec_sorted(s),
    ensures
        spec_sorted(spec_ord_insert(s, key, v)),
    decreases s.len(),
{
    let r = spec_ord_insert(s, key, v);
    if s.len() == 0 {
    } else if lex_lt(s[0].0@, key@) {
        assert forall|i: int, j: int|
            0 <= i < j < s.drop_first().len() implies lex_lt(
            s.drop_first()[i].0@,
            s.drop_first()[j].0@,
        ) by {
            assert(s.drop_first()[i] == s[i + 1]);
            assert(s.drop_first()[j] == s[j + 1]);
        }
        lemma_ord_insert_sorted(s.drop_first(), key, v);
        let tail = spec_ord_insert(s.drop_first(), key, v);
        assert forall|i: int, j: int| 0 <= i < j < r.len() implies lex_lt(r[i].0@, r[j].0@) by {
            if i == 0 {
                lemma_ord_insert_tail_keys(s.drop_first(), key, v, j - 1);
                if exists|m: int|
                    0 <= m < s.drop_first().len() && tail[j - 1].0@ == #[trigger] s.drop_first()[m].0@ {
                    let m = choose|m: int|
                        0 <= m < s.drop_first().len() && tail[j - 1].0@ == #[trigger] s.drop_first()[m].0@;
                    assert(s.drop_first()[m] == s[m + 1]);
                    assert(lex_lt(s[0].0@, s[m + 1].0@));
                } else {
                    assert(tail[j - 1].0@ == key@);
                }
            } else {
                assert(r[i] == tail[i - 1]);
                assert(r[j] == tail[j - 1]);
            }
        }
    } else if s[0].0@ == key@ {
        assert forall|i: int, j: int| 0 <= i < j < r.len() implies lex_lt(r[i].0@, r[j].0@) by {
            if i == 0 {
                assert(r[j] == s.drop_first()[j - 1]);
                assert(s.drop_first()[j - 1] == s[j]);
                assert(lex_lt(s[0].0@, s[j].0@));
            } else {
                assert(r[i] == s[i]);
                assert(r[j] == s[j]);
            }
        }
    } else {
        lemma_lex_lt_trichotomy(s[0].0@, key@);
        assert forall|i: int, j: int| 0 <= i < j < r.len() implies lex_lt(r[i].0@, r[j].0@) by {
            if i == 0 {
                assert(r[j] == s[j - 1]);
                if j - 1 > 0 {
                    assert(lex_lt(s[0].0@, s[j - 1].0@));
                    lemma_lex_lt_trans(key@, s[0].0@, s[j - 1].0@);
                }
            } else {
                assert(r[i] == s[i - 1]);
                assert(r[j] == s[j - 1]);
            }
        }
    }
}

/// Every key of the inserted result is either `key@` or a key of `s`.
proof fn lemma_ord_insert_tail_keys<V>(s: Seq<(String, V)>, key: String, v: V, j: int)
    requires
        0 <= j < spec_ord_insert(s, key, v).len(),
    ensures
        spec_ord_insert(s, key, v)[j].0@ == key@ || exists|m: int|
            0 <= m < s.len() && spec_ord_insert(s, key, v)[j].0@ == #[trigger] s[m].0@,
    decreases s.len(),
{
    let r = spec_ord_insert(s, key, v);
    if s.len() == 0 {
    } else if lex_lt(s[0].0@, key@) {
        if j == 0 {
            assert(r[0].0@ == s[0].0@);
        } else {
            lemma_ord_insert_tail_keys(s.drop_first(), key, v, j - 1);
            let tail = spec_ord_insert(s.drop_first(), key, v);
            assert(r[j] == tail[j - 1]);
            if exists|m: int|
                0 <= m < s.drop_first().len() && tail[j - 1].0@ == #[trigger] s.drop_first()[m].0@ {
                let m = choose|m: int|
                    0 <= m < s.drop_first().len() && tail[j - 1].0@ == #[trigger] s.drop_first()[m].0@;
                assert(s.drop_first()[m] == s[m + 1]);
                assert(r[j].0@ == s[m + 1].0@);
            }
        }
    } else if s[0].0@ == key@ {
        if j > 0 {
            assert(r[j] == s.drop_first()[j - 1]);
            assert(s.drop_first()[j - 1] == s[j]);
        }
    } else {
        if j > 0 {
            assert(r[j] == s[j - 1]);
        }
    }
}

/// `spec_ord_insert` in terms of the first position whose key is not below
/// the inserted key.
proof fn lemma_ord_insert_at<V>(s: Seq<(String, V)>, key: String, v: V, i: int)
    requires
        0 <= i <= s.len(),
        forall|j: int| 0 <= j < i ==> lex_lt(#[trigger] s[j].0@, key@),
        i < s.len() ==> !lex_lt(s[i].0@, key@),
    ensures
        i < s.len() && s[i].0@ == key@ ==> spec_ord_insert(s, key, v) =~= s.take(i) + seq![
            (key, v),
        ] + s.skip(i + 1),
        !(i < s.len() && s[i].0@ == key@) ==> spec_ord_insert(s, key, v) =~= s.take(i) + seq![
            (key, v),
        ] + s.skip(i),
    decreases s.len(),
{
    if s.len() == 0 {
    } else if i == 0 {
        if s[0].0@ == key@ {
            assert(spec_ord_insert(s, key, v) =~= s.take(0) + seq![(key, v)] + s.skip(1));
        } else {
            assert(spec_ord_insert(s, key, v) =~= s.take(0) + seq![(key, v)] + s.skip(0));
        }
    } else {
        assert(lex_lt(s[0].0@, key@));
        assert forall|j: int| 0 <= j < i - 1 implies lex_lt(#[trigger] s.drop_first()[j].0@, key@) by {
            assert(s.drop_first()[j] == s[j + 1]);
        }
        assert(i - 1 < s.drop_first().len() ==> s.drop_first()[i - 1] == s[i]);
        lemma_ord_insert_at(s.drop_first(), key, v, i - 1);
        if i < s.len() && s[i].0@ == key@ {
            assert(s.drop_first().take(i - 1) =~= s.take(i).drop_first());
            assert(s.drop_first().skip(i) =~= s.skip(i + 1));
            assert(spec_ord_insert(s, key, v) =~= s.take(i) + seq![(key, v)] + s.skip(i + 1));
        } else {
            assert(s.drop_first().take(i - 1) =~= s.take(i).drop_first());
            assert(s.drop_first().skip(i - 1) =~= s.skip(i));
            assert(spec_ord_insert(s, key, v) =~= s.take(i) + seq![(key, v)] + s.skip(i));
        }
    }
}

impl<V> OrdMap<V> {
    /// Whether the keys are strictly increasing.
    pub open spec fn wf(&self) -> bool {
        spec_sorted(self.entries@)
    }

    /// An empty map.
    pub fn new() -> (r: OrdMap<V>)
        ensures
            r.entries@ =~= Seq::<(String, V)>::empty(),
            r.wf(),
    {
        OrdMap { entries: Vec::new() }
    }

    /// How many entries the map holds.
    pub fn len(&self) -> (r: usize)
        ensures
            r == self.entries@.len(),
    {
        self.entries.len()
    }

    /// The key of the entry at position `i`.
    pub fn key_at(&self, i: usize) -> (r: &String)
        requires
            i < self.entries@.len(),
        ensures
            *r == self.entries@[i as int].0,
    {
        &self.entries[i].0
    }

    /// The value of the entry at position `i`.
    pub fn val_at(&self, i: usize) -> (r: &V)
        requires
            i < self.entries@.len(),
        ensures
            *r == self.entries@[i as int].1,
    {
        &self.entries[i].1
    }

    /// Inserts `(key, v)` at its sorted position, replacing an entry whose
    /// key reads the same.
    pub fn insert(&mut self, key: String, v: V)
        ensures
            final(self).entries@ == spec_ord_insert(old(self).entries@, key, v),
            old(self).wf() ==> final(self).wf(),
    {
        let ghost s = self.entries@;
        let len = self.entries.len();
        let mut i: usize = 0;
        while i < len && str_lt(self.entries[i].0.as_str(), key.as_str())
            invariant
                0 <= i <= len,
                len == self.entries@.len(),
                self.entries@ == s,
                forall|j: int| 0 <= j < i ==> lex_lt(#[trigger] s[j].0@, key@),
            decreases len - i,
        {
            i = i + 1;
        }
        proof {
            lemma_ord_insert_at(s, key, v, i as int);
            if old(self).wf() {
                lemma_ord_insert_sorted(s, key, v);
            }
        }
        if i < len && str_eq(self.entries[i].0.as_str(), key.as_str()) {
            self.entries.remove(i);
            self.entries.insert(i, (key, v));
            proof {
                assert(self.entries@ =~= s.take(i as int) + seq![(key, v)] + s.skip(i as int + 1));
            }
        } else {
            self.entries.insert(i, (key, v));
            proof {
                assert(self.entries@ =~= s.take(i as int) + seq![(key, v)] + s.skip(i as int));
            }
        }
    }

    /// Looks up the value stored under `key`, if any.
    pub fn get(&self, key: &str) -> (r: Option<&V>)
        ensures
            match r {
                Option::Some(v) => spec_ord_get(self.entries@, key@) == Option::Some(*v),
                Option::None => spec_ord_get(self.entries@, key@) is None,
            },
    {
        let len = self.entries.len();
        let mut i: usize = 0;
        proof {
            assert(self.entries@.skip(0) =~= self.entries@);
        }
        while i < len
            invariant
                0 <= i <= len,
                len == self.entries@.len(),
                spec_ord_get(self.entries@, key@) == spec_ord_get(self.entries@.skip(i as int), key@),
            decreases len - i,
        {
            proof {
                assert(self.entries@.skip(i as int)[0] == self.entries@[i as int]);
                assert(self.entries@.skip(i as int).drop_first() =~= self.entries@.skip(i as int + 1));
            }
            if str_eq(self.entries[i].0.as_str(), key) {
                return Option::Some(&self.entries[i].1);
            }
            i = i + 1;
        }
        proof {
            assert(self.entries@.skip(len as int) =~= Seq::<(String, V)>::empty());
        }
        Option::None
    }
}


/// Strict lexicographic order on (method, path) key pairs.
pub open spec fn pair_lt(a: (String, String), b: (String, String)) -> bool {
    lex_lt(a.0@, b.0@) || (a.0@ == b.0@ && lex_lt(a.1@, b.1@))
}

/// Whether two key pairs read the same.
pub open spec fn pair_eq(a: (String, String), b: (String, String)) -> bool {
    a.0@ == b.0@ && a.1@ == b.1@
}

/// Exactly one of `pair_lt(a, b)`, `pair_eq(a, b)`, `pair_lt(b, a)` holds.
pub proof fn lemma_pair_lt_trichotomy(a: (String, String), b: (String, String))
    ensures
        pair_lt(a, b) || pair_eq(a, b) || pair_lt(b, a),
        pair_lt(a, b) ==> !pair_eq(a, b) && !pair_lt(b, a),
        pair_eq(a, b) ==> !pair_lt(a, b) && !pair_lt(b, a),
{
    lemma_lex_lt_trichotomy(a.0@, b.0@);
    lemma_lex_lt_trichotomy(a.1@, b.1@);
}

/// The pair order is transitive.
pub proof fn lemma_pair_lt_trans(a: (String, String), b: (String, String), c: (String, String))
    requires
        pair_lt(a, b),
        pair_lt(b, c),
    ensures
        pair_lt(a, c),
{
    lemma_lex_lt_trichotomy(a.0@, b.0@);
    lemma_lex_lt_trichotomy(b.0@, c.0@);
    if lex_lt(a.0@, b.0@) && lex_lt(b.0@, c.0@) {
        lemma_lex_lt_trans(a.0@, b.0@, c.0@);
    } else if a.0@ == b.0@ && a.1@ == b.1@ {
    } else if lex_lt(a.1@, b.1@) && lex_lt(b.1@, c.1@) {
        lemma_lex_lt_trans(a.1@, b.1@, c.1@);
    }
}

/// An association map over (method, path) key pairs, kept sorted by
/// [`pair_lt`].
#[derive(Debug, PartialEq, Eq)]
pub struct PairMap<V> {
    /// Key/value pairs, strictly increasing in the key when well formed.
    pub entries: Vec<((String, String), V)>,
}

/// The result of inserting `(key, v)` into `s` before the first entry whose
/// key is not below `key`, replacing an entry with an equal key.
pub open spec fn spec_pair_insert<V>(
    s: Seq<((String, String), V)>,
    key: (String, String),
    v: V,
) -> Seq<((String, String), V)>
    decreases s.len(),
{
    if s.len() == 0 {
        seq![(key, v)]
    } else if pair_lt(s[0].0, key) {
        seq![s[0]] + spec_pair_insert(s.drop_first(), key, v)
    } else if pair_eq(s[0].0, key) {
        seq![(key, v)] + s.drop_first()
    } else {
        seq![(key, v)] + s
    }
}

/// Whether the key pairs of `s` are strictly increasing.
pub open spec fn spec_pair_sorted<V>(s: Seq<((String, String), V)>) -> bool {
    forall|i: int, j: int| 0 <= i < j < s.len() ==> pair_lt(s[i].0, s[j].0)
}

/// Every key of the inserted result is either `key` or a key of `s`.
proof fn lemma_pair_insert_tail_keys<V>(
    s: Seq<((String, String), V)>,
    key: (String, String),
    v: V,
    j: int,
)
    requires
        0 <= j < spec_pair_insert(s, key, v).len(),
    ensures
        pair_eq(spec_pair_insert(s, key, v)[j].0, key) || exists|m: int|
            0 <= m < s.len() && pair_eq(spec_pair_insert(s, key, v)[j].0, #[trigger] s[m].0),
    decreases s.len(),
{
    let r = spec_pair_insert(s, key, v);
    if s.len() == 0 {
    } else if pair_lt(s[0].0, key) {
        if j == 0 {
            assert(pair_eq(r[0].0, s[0].0));
        } else {
            lemma_pair_insert_tail_keys(s.drop_first(), key, v, j - 1);
            let tail = spec_pair_insert(s.drop_first(), key, v);
            assert(r[j] == tail[j - 1]);
            if exists|m: int|
                0 <= m < s.drop_first().len() && pair_eq(tail[j - 1].0, #[trigger] s.drop_first()[m].0) {
                let m = choose|m: int|
                    0 <= m < s.drop_first().len() && pair_eq(
                        tail[j - 1].0,
                        #[trigger] s.drop_first()[m].0,
                    );
                assert(s.drop_first()[m] == s[m + 1]);
                assert(pair_eq(r[j].0, s[m + 1].0));
            }
        }
    } else if pair_eq(s[0].0, key) {
        if j > 0 {
            assert(r[j] == s.drop_first()[j - 1]);
            assert(s.drop_first()[j - 1] == s[j]);
            assert(pair_eq(r[j].0, s[j].0));
        }
    } else {
        if j > 0 {
            assert(r[j] == s[j - 1]);
            assert(pair_eq(r[j].0, s[j - 1].0));
        }
    }
}

/// Inserting preserves strictly increasing key pairs.
pub proof fn lemma_pair_insert_sorted<V>(
    s: Seq<((String, String), V)>,
    key: (String, String),
    v: V,
)
    requires
        spec_pair_sorted(s),
    ensures
        spec_pair_sorted(spec_pair_insert(s, key, v)),
    decreases s.len(),
{
    let r = spec_pair_insert(s, key, v);
    if s.len() == 0 {
    } else if pair_lt(s[0].0, key) {
        assert forall|i: int, j: int|
            0 <= i < j < s.drop_first().len() implies pair_lt(
            s.drop_first()[i].0,
            s.drop_first()[j].0,
        ) by {
            assert(s.drop_first()[i] == s[i + 1]);
            assert(s.drop_first()[j] == s[j + 1]);
        }
        lemma_pair_insert_sorted(s.drop_first(), key, v);
        let tail = spec_pair_insert(s.drop_first(), key, v);
        assert forall|i: int, j: int| 0 <= i < j < r.len() implies pair_lt(r[i].0, r[j].0) by {
            if i == 0 {
                lemma_pair_insert_tail_keys(s.drop_first(), key, v, j - 1);
                if exists|m: int|
                    0 <= m < s.drop_first().len() && pair_eq(tail[j - 1].0, #[trigger] s.drop_first()[m].0) {
                    let m = choose|m: int|
                        0 <= m < s.drop_first().len() && pair_eq(
                            tail[j - 1].0,
                            #[trigger] s.drop_first()[m].0,
                        );
                    assert(s.drop_first()[m] == s[m + 1]);
                    assert(pair_lt(s[0].0, s[m + 1].0));
                } else {
                    assert(pair_eq(tail[j - 1].0, key));
                }
            } else {
                assert(r[i] == tail[i - 1]);
                assert(r[j] == tail[j - 1]);
            }
        }
    } else if pair_eq(s[0].0, key) {
        assert forall|i: int, j: int| 0 <= i < j < r.len() implies pair_lt(r[i].0, r[j].0) by {
            if i == 0 {
                assert(r[j] == s.drop_first()[j - 1]);
                assert(s.drop_first()[j - 1] == s[j]);
                assert(pair_lt(s[0].0, s[j].0));
            } else {
                assert(r[i] == s[i]);
                assert(r[j] == s[j]);
            }
        }
    } else {
        lemma_pair_lt_trichotomy(s[0].0, key);
        assert forall|i: int, j: int| 0 <= i < j < r.len() implies pair_lt(r[i].0, r[j].0) by {
            if i == 0 {
                assert(r[j] == s[j - 1]);
                if j - 1 > 0 {
                    assert(pair_lt(s[0].0, s[j - 1].0));
                    lemma_pair_lt_trans(key, s[0].0, s[j - 1].0);
                }
            } else {
                assert(r[i] == s[i - 1]);
                assert(r[j] == s[j - 1]);
            }
        }
    }
}

/// `spec_pair_insert` in terms of the first position whose key is not below
/// the inserted key.
proof fn lemma_pair_insert_at<V>(
    s: Seq<((String, String), V)>,
    key: (String, String),
    v: V,
    i: int,
)
    requires
        0 <= i <= s.len(),
        forall|j: int| 0 <= j < i ==> pair_lt(#[trigger] s[j].0, key),
        i < s.len() ==> !pair_lt(s[i].0, key),
    ensures
        i < s.len() && pair_eq(s[i].0, key) ==> spec_pair_insert(s, key, v) =~= s.take(i) + seq![
            (key, v),
        ] + s.skip(i + 1),
        !(i < s.len() && pair_eq(s[i].0, key)) ==> spec_pair_insert(s, key, v) =~= s.take(i)
            + seq![(key, v)] + s.skip(i),
    decreases s.len(),
{
    if s.len() == 0 {
    } else if i == 0 {
        if pair_eq(s[0].0, key) {
            assert(spec_pair_insert(s, key, v) =~= s.take(0) + seq![(key, v)] + s.skip(1));
        } else {
            assert(spec_pair_insert(s, key, v) =~= s.take(0) + seq![(key, v)] + s.skip(0));
        }
    } else {
        assert(pair_lt(s[0].0, key));
        assert forall|j: int| 0 <= j < i - 1 implies pair_lt(#[trigger] s.drop_first()[j].0, key) by {
            assert(s.drop_first()[j] == s[j + 1]);
        }
        assert(i - 1 < s.drop_first().len() ==> s.drop_first()[i - 1] == s[i]);
        lemma_pair_insert_at(s.drop_first(), key, v, i - 1);
        if i < s.len() && pair_eq(s[i].0, key) {
            assert(s.drop_first().take(i - 1) =~= s.take(i).drop_first());
            assert(s.drop_first().skip(i) =~= s.skip(i + 1));
            assert(spec_pair_insert(s, key, v) =~= s.take(i) + seq![(key, v)] + s.skip(i + 1));
        } else {
            assert(s.drop_first().take(i - 1) =~= s.take(i).drop_first());
            assert(s.drop_first().skip(i - 1) =~= s.skip(i));
            assert(spec_pair_insert(s, key, v) =~= s.take(i) + seq![(key, v)] + s.skip(i));
        }
    }
}

/// Whether `a` is below `b` in the pair order.
fn pair_below(a: &(String, String), b: &(String, String)) -> (r: bool)
    ensures
        r == pair_lt(*a, *b),
{
    str_lt(a.0.as_str(), b.0.as_str()) || (str_eq(a.0.as_str(), b.0.as_str()) && str_lt(
        a.1.as_str(),
        b.1.as_str(),
    ))
}

impl<V> PairMap<V> {
    /// Whether the key pairs are strictly increasing.
    pub open spec fn wf(&self) -> bool {
        spec_pair_sorted(self.entries@)
    }

    /// An empty map.
    pub fn new() -> (r: PairMap<V>)
        ensures
            r.entries@ =~= Seq::<((String, String), V)>::empty(),
            r.wf(),
    {
        PairMap { entries: Vec::new() }
    }

    /// How many entries the map holds.
    pub fn len(&self) -> (r: usize)
        ensures
            r == self.entries@.len(),
    {
        self.entries.len()
    }

    /// The key pair of the entry at position `i`.
    pub fn key_at(&self, i: usize) -> (r: &(String, String))
        requires
            i < self.entries@.len(),
        ensures
            *r == self.entries@[i as int].0,
    {
        &self.entries[i].0
    }

    /// The value of the entry at position `i`.
    pub fn val_at(&self, i: usize) -> (r: &V)
        requires
            i < self.entries@.len(),
        ensures
            *r == self.entries@[i as int].1,
    {
        &self.entries[i].1
    }

    /// Inserts `(key, v)` at its sorted position, replacing an entry whose
    /// key reads the same.
    pub fn insert(&mut self, key: (String, String), v: V)
        ensures
            final(self).entries@ == spec_pair_insert(old(self).entries@, key, v),
            old(self).wf() ==> final(self).wf(),
    {
        let ghost s = self.entries@;
        let len = self.entries.len();
        let mut i: usize = 0;
        while i < len && pair_below(&self.entries[i].0, &key)
            invariant
                0 <= i <= len,
                len == self.entries@.len(),
                self.entries@ == s,
                forall|j: int| 0 <= j < i ==> pair_lt(#[trigger] s[j].0, key),
            decreases len - i,
        {
            i = i + 1;
        }
        proof {
            lemma_pair_insert_at(s, key, v, i as int);
            if old(self).wf() {
                lemma_pair_insert_sorted(s, key, v);
            }
        }
        if i < len && str_eq(self.entries[i].0.0.as_str(), key.0.as_str()) && str_eq(
            self.entries[i].0.1.as_str(),
            key.1.as_str(),
        ) {
            self.entries.remove(i);
            self.entries.insert(i, (key, v));
            proof {
                assert(self.entries@ =~= s.take(i as int) + seq![(key, v)] + s.skip(i as int + 1));
            }
        } else {
            self.entries.insert(i, (key, v));
            proof {
                assert(self.entries@ =~= s.take(i as int) + seq![(key, v)] + s.skip(i as int));
            }
        }
    }
}


/// The view of an entry sequence under a value-view function `g`: keys become
/// character sequences, values become `g` of themselves.
pub open spec fn map_kv_view<V, W>(e: Seq<(String, V)>, g: spec_fn(V) -> W) -> Seq<
    (Seq<char>, W),
> {
    Seq::new(e.len(), |i: int| (e[i].0@, g(e[i].1)))
}

/// Viewing commutes with sorted insertion.
pub proof fn lemma_map_kv_view_insert<V, W>(e: Seq<(String, V)>, key: String, v: V, g: spec_fn(V) -> W)
    ensures
        map_kv_view(spec_ord_insert(e, key, v), g) =~= spec_kv_insert(
            map_kv_view(e, g),
            key@,
            g(v),
        ),
    decreases e.len(),
{
    let lhs = map_kv_view(spec_ord_insert(e, key, v), g);
    let rhs = spec_kv_insert(map_kv_view(e, g), key@, g(v));
    if e.len() == 0 {
    } else if lex_lt(e[0].0@, key@) {
        lemma_map_kv_view_insert(e.drop_first(), key, v, g);
        assert(spec_ord_insert(e, key, v).drop_first() =~= spec_ord_insert(e.drop_first(), key, v));
        assert(map_kv_view(e, g).drop_first() =~= map_kv_view(e.drop_first(), g));
        assert(map_kv_view(spec_ord_insert(e, key, v), g).drop_first() =~= map_kv_view(
            spec_ord_insert(e, key, v).drop_first(),
            g,
        ));
    } else if e[0].0@ == key@ {
        assert(spec_ord_insert(e, key, v).drop_first() =~= e.drop_first());
        assert(map_kv_view(e, g).drop_first() =~= map_kv_view(e.drop_first(), g));
        assert(lhs.drop_first() =~= map_kv_view(e.drop_first(), g));
        assert(rhs.drop_first() =~= map_kv_view(e.drop_first(), g));
        assert(lhs[0] == rhs[0]);
    } else {
        assert(spec_ord_insert(e, key, v).drop_first() =~= e);
        assert(lhs.drop_first() =~= map_kv_view(e, g));
        assert(rhs.drop_first() =~= map_kv_view(e, g));
        assert(lhs[0] == rhs[0]);
    }
}

/// A sorted entry sequence views to a sorted key/value sequence.
pub proof fn lemma_map_kv_view_sorted<V, W>(e: Seq<(String, V)>, g: spec_fn(V) -> W)
    requires
        spec_sorted(e),
    ensures
        spec_sorted_kv(map_kv_view(e, g)),
{
}

/// Strict lexicographic order on viewed key pairs.
pub open spec fn pair_lt_v(a: (Seq<char>, Seq<char>), b: (Seq<char>, Seq<char>)) -> bool {
    lex_lt(a.0, b.0) || (a.0 == b.0 && lex_lt(a.1, b.1))
}

/// The view of a pair-keyed entry sequence under a value-view function `g`.
pub open spec fn map_pair_view<V, W>(
    e: Seq<((String, String), V)>,
    g: spec_fn(V) -> W,
) -> Seq<((Seq<char>, Seq<char>), W)> {
    Seq::new(e.len(), |i: int| ((e[i].0.0@, e[i].0.1@), g(e[i].1)))
}

/// `spec_pair_insert` over viewed key pairs.
pub open spec fn spec_pair_insert_kv<W>(
    s: Seq<((Seq<char>, Seq<char>), W)>,
    k: (Seq<char>, Seq<char>),
    v: W,
) -> Seq<((Seq<char>, Seq<char>), W)>
    decreases s.len(),
{
    if s.len() == 0 {
        seq![(k, v)]
    } else if pair_lt_v(s[0].0, k) {
        seq![s[0]] + spec_pair_insert_kv(s.drop_first(), k, v)
    } else if s[0].0 == k {
        seq![(k, v)] + s.drop_first()
    } else {
        seq![(k, v)] + s
    }
}

/// Whether the viewed key pairs of `s` are strictly increasing.
pub open spec fn spec_pair_sorted_kv<W>(s: Seq<((Seq<char>, Seq<char>), W)>) -> bool {
    forall|i: int, j: int| 0 <= i < j < s.len() ==> pair_lt_v(s[i].0, s[j].0)
}

/// Viewing commutes with sorted pair insertion.
pub proof fn lemma_map_pair_view_insert<V, W>(
    e: Seq<((String, String), V)>,
    key: (String, String),
    v: V,
    g: spec_fn(V) -> W,
)
    ensures
        map_pair_view(spec_pair_insert(e, key, v), g) =~= spec_pair_insert_kv(
            map_pair_view(e, g),
            (key.0@, key.1@),
            g(v),
        ),
    decreases e.len(),
{
    let lhs = map_pair_view(spec_pair_insert(e, key, v), g);
    let rhs = spec_pair_insert_kv(map_pair_view(e, g), (key.0@, key.1@), g(v));
    if e.len() == 0 {
    } else if pair_lt(e[0].0, key) {
        lemma_map_pair_view_insert(e.drop_first(), key, v, g);
        assert(spec_pair_insert(e, key, v).drop_first() =~= spec_pair_insert(
            e.drop_first(),
            key,
            v,
        ));
        assert(map_pair_view(e, g).drop_first() =~= map_pair_view(e.drop_first(), g));
        assert(map_pair_view(spec_pair_insert(e, key, v), g).drop_first() =~= map_pair_view(
            spec_pair_insert(e, key, v).drop_first(),
            g,
        ));
    } else if pair_eq(e[0].0, key) {
        assert(spec_pair_insert(e, key, v).drop_first() =~= e.drop_first());
        assert(map_pair_view(e, g).drop_first() =~= map_pair_view(e.drop_first(), g));
        assert(lhs.drop_first() =~= map_pair_view(e.drop_first(), g));
        assert(rhs.drop_first() =~= map_pair_view(e.drop_first(), g));
        assert(lhs[0] == rhs[0]);
    } else {
        assert(spec_pair_insert(e, key, v).drop_first() =~= e);
        assert(lhs.drop_first() =~= map_pair_view(e, g));
        assert(rhs.drop_first() =~= map_pair_view(e, g));
        assert(lhs[0] == rhs[0]);
    }
}

/// A sorted pair entry sequence views to a sorted key/value sequence.
pub proof fn lemma_map_pair_view_sorted<V, W>(e: Seq<((String, String), V)>, g: spec_fn(V) -> W)
    requires
        spec_pair_sorted(e),
    ensures
        spec_pair_sorted_kv(map_pair_view(e, g)),
{
    let m = map_pair_view(e, g);
    assert forall|i: int, j: int| 0 <= i < j < m.len() implies pair_lt_v(m[i].0, m[j].0) by {
        assert(pair_lt(e[i].0, e[j].0));
    }
}


/// The value at the first entry of `s` whose key is `k`, if any, over
/// view-level pairs.
pub open spec fn spec_kv_get<V>(s: Seq<(Seq<char>, V)>, k: Seq<char>) -> Option<V>
    decreases s.len(),
{
    if s.len() == 0 {
        Option::None
    } else if s[0].0 == k {
        Option::Some(s[0].1)
    } else {
        spec_kv_get(s.drop_first(), k)
    }
}

/// Lookup commutes with viewing.
pub proof fn lemma_kv_get_map_view<V, W>(e: Seq<(String, V)>, k: Seq<char>, g: spec_fn(V) -> W)
    ensures
        spec_kv_get(map_kv_view(e, g), k) == (match spec_ord_get(e, k) {
            Option::None => Option::<W>::None,
            Option::Some(v) => Option::Some(g(v)),
        }),
    decreases e.len(),
{
    if e.len() > 0 {
        assert(map_kv_view(e, g)[0] == (e[0].0@, g(e[0].1)));
        assert(map_kv_view(e, g).drop_first() =~= map_kv_view(e.drop_first(), g));
        lemma_kv_get_map_view(e.drop_first(), k, g);
    }
}


/// Every key of the view-level inserted result is either `k` or a key of
/// `s`.
proof fn lemma_kv_insert_tail_keys<V>(s: Seq<(Seq<char>, V)>, k: Seq<char>, v: V, j: int)
    requires
        0 <= j < spec_kv_insert(s, k, v).len(),
    ensures
        spec_kv_insert(s, k, v)[j].0 == k || exists|m: int|
            0 <= m < s.len() && spec_kv_insert(s, k, v)[j].0 == #[trigger] s[m].0,
    decreases s.len(),
{
    let r = spec_kv_insert(s, k, v);
    if s.len() == 0 {
    } else if lex_lt(s[0].0, k) {
        if j == 0 {
            assert(r[0].0 == s[0].0);
        } else {
            lemma_kv_insert_tail_keys(s.drop_first(), k, v, j - 1);
            let tail = spec_kv_insert(s.drop_first(), k, v);
            assert(r[j] == tail[j - 1]);
            if exists|m: int|
                0 <= m < s.drop_first().len() && tail[j - 1].0 == #[trigger] s.drop_first()[m].0 {
                let m = choose|m: int|
                    0 <= m < s.drop_first().len() && tail[j - 1].0 == #[trigger] s.drop_first()[m].0;
                assert(s.drop_first()[m] == s[m + 1]);
                assert(r[j].0 == s[m + 1].0);
            }
        }
    } else if s[0].0 == k {
        if j > 0 {
            assert(r[j] == s.drop_first()[j - 1]);
            assert(s.drop_first()[j - 1] == s[j]);
        }
    } else {
        if j > 0 {
            assert(r[j] == s[j - 1]);
        }
    }
}

/// View-level insertion preserves strictly increasing keys.
pub proof fn lemma_kv_insert_sorted<V>(s: Seq<(Seq<char>, V)>, k: Seq<char>, v: V)
    requires
        spec_sorted_kv(s),
    ensures
        spec_sorted_kv(spec_kv_insert(s, k, v)),
    decreases s.len(),
{
    let r = spec_kv_insert(s, k, v);
    if s.len() == 0 {
    } else if lex_lt(s[0].0, k) {
        assert forall|i: int, j: int|
            0 <= i < j < s.drop_first().len() implies lex_lt(
            s.drop_first()[i].0,
            s.drop_first()[j].0,
        ) by {
            assert(s.drop_first()[i] == s[i + 1]);
            assert(s.drop_first()[j] == s[j + 1]);
        }
        lemma_kv_insert_sorted(s.drop_first(), k, v);
        let tail = spec_kv_insert(s.drop_first(), k, v);
        assert forall|i: int, j: int| 0 <= i < j < r.len() implies lex_lt(r[i].0, r[j].0) by {
            if i == 0 {
                lemma_kv_insert_tail_keys(s.drop_first(), k, v, j - 1);
                if exists|m: int|
                    0 <= m < s.drop_first().len() && tail[j - 1].0 == #[trigger] s.drop_first()[m].0 {
                    let m = choose|m: int|
                        0 <= m < s.drop_first().len() && tail[j - 1].0 == #[trigger] s.drop_first()[m].0;
                    assert(s.drop_first()[m] == s[m + 1]);
                    assert(lex_lt(s[0].0, s[m + 1].0));
                } else {
                    assert(tail[j - 1].0 == k);
                }
            } else {
                assert(r[i] == tail[i - 1]);
                assert(r[j] == tail[j - 1]);
            }
        }
    } else if s[0].0 == k {
        assert forall|i: int, j: int| 0 <= i < j < r.len() implies lex_lt(r[i].0, r[j].0) by {
            if i == 0 {
                assert(r[j] == s.drop_first()[j - 1]);
                assert(s.drop_first()[j - 1] == s[j]);
                assert(lex_lt(s[0].0, s[j].0));
            } else {
                assert(r[i] == s[i]);
                assert(r[j] == s[j]);
            }
        }
    } else {
        lemma_lex_lt_trichotomy(s[0].0, k);
        assert forall|i: int, j: int| 0 <= i < j < r.len() implies lex_lt(r[i].0, r[j].0) by {
            if i == 0 {
                assert(r[j] == s[j - 1]);
                if j - 1 > 0 {
                    assert(lex_lt(s[0].0, s[j - 1].0));
                    lemma_lex_lt_trans(k, s[0].0, s[j - 1].0);
                }
            } else {
                assert(r[i] == s[i - 1]);
                assert(r[j] == s[j - 1]);
            }
        }
    }
}

} // verus!
