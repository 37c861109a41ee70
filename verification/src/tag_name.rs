//! Validated tag names and the tag mapping carried by points.

use vstd::prelude::*;
use vstd::string::StringExecFns;
use vstd::string::StringSliceAdditionalSpecFns;
use vstd::utf8::encode_utf8;

use crate::error::InfluxDBError;
use crate::util::spec_valid_name;
use crate::util::str_eq;
use crate::util::validate_name;

verus! {

/// True when a text is accepted as a tag name: non-empty, opening with an
/// ASCII letter or digit, and containing only ASCII letters, digits, `_`
/// and `-`.
pub open spec fn valid_tag_text(s: Seq<char>) -> bool {
    spec_valid_name(encode_utf8(s))
}

/// A tag name that passed the validator.  Construction fails on any other
/// text, so a value of this type always carries a valid name.
#[derive(Debug)]
pub struct TagName {
    name: String,
}

impl View for TagName {
    type V = Seq<char>;

    closed spec fn view(&self) -> Seq<char> {
        self.name@
    }
}

impl Clone for TagName {
    fn clone(&self) -> (r: Self)
        ensures
            r == *self,
    {
        proof {
            use_type_invariant(self);
        }
        TagName { name: self.name.clone() }
    }
}

impl TagName {
    #[verifier::type_invariant]
    spec fn type_inv(self) -> bool {
        valid_tag_text(self.name@)
    }

    /// Validates a text as a tag name.  Succeeds, keeping the text
    /// unchanged, exactly when the validator accepts it; any other text is
    /// rejected with a typed error carrying the text.
    pub fn try_from(value: &str) -> (r: Result<TagName, InfluxDBError>)
        ensures
            valid_tag_text(value@) ==> (r matches Ok(t) && t@ == value@),
            !valid_tag_text(value@) ==> (r matches Err(InfluxDBError::InvalidTagName(s)) && s@
                == value@),
    {
        if validate_name(value) {
            Ok(TagName { name: String::from_str(value) })
        } else {
            Err(InfluxDBError::InvalidTagName(String::from_str(value)))
        }
    }

    /// The name's text.
    pub fn as_ref(&self) -> (r: &str)
        ensures
            r@ == self@,
    {
        self.name.as_str()
    }

}

/// The value under a name: the first entry whose name matches.
pub open spec fn spec_tmap_get(m: Seq<(Seq<char>, Seq<char>)>, k: Seq<char>) -> Option<Seq<char>>
    decreases m.len(),
{
    if m.len() == 0 {
        None
    } else if m[0].0 == k {
        Some(m[0].1)
    } else {
        spec_tmap_get(m.drop_first(), k)
    }
}

/// The mapping with `v` under `k`: an entry with the same name is replaced
/// in place, a new name is appended.
pub open spec fn spec_tmap_insert(
    m: Seq<(Seq<char>, Seq<char>)>,
    k: Seq<char>,
    v: Seq<char>,
) -> Seq<(Seq<char>, Seq<char>)>
    decreases m.len(),
{
    if m.len() == 0 {
        seq![(k, v)]
    } else if m[0].0 == k {
        seq![(k, v)] + m.drop_first()
    } else {
        seq![m[0]] + spec_tmap_insert(m.drop_first(), k, v)
    }
}

/// The mapping without the entry under `k`, if any.
pub open spec fn spec_tmap_remove(m: Seq<(Seq<char>, Seq<char>)>, k: Seq<char>) -> Seq<
    (Seq<char>, Seq<char>),
>
    decreases m.len(),
{
    if m.len() == 0 {
        m
    } else if m[0].0 == k {
        m.drop_first()
    } else {
        seq![m[0]] + spec_tmap_remove(m.drop_first(), k)
    }
}

proof fn lemma_tmap_get_at(m: Seq<(Seq<char>, Seq<char>)>, k: Seq<char>, i: int)
    requires
        0 <= i < m.len(),
        m[i].0 == k,
        forall|j: int| 0 <= j < i ==> (#[trigger] m[j]).0 != k,
    ensures
        spec_tmap_get(m, k) == Some(m[i].1),
    decreases i,
{
    if i > 0 {
        lemma_tmap_get_at(m.drop_first(), k, i - 1);
    }
}

proof fn lemma_tmap_get_none(m: Seq<(Seq<char>, Seq<char>)>, k: Seq<char>)
    requires
        forall|j: int| 0 <= j < m.len() ==> (#[trigger] m[j]).0 != k,
    ensures
        spec_tmap_get(m, k) is None,
    decreases m.len(),
{
    if m.len() > 0 {
        lemma_tmap_get_none(m.drop_first(), k);
    }
}

proof fn lemma_tmap_insert_at(m: Seq<(Seq<char>, Seq<char>)>, k: Seq<char>, v: Seq<char>, i: int)
    requires
        0 <= i < m.len(),
        m[i].0 == k,
        forall|j: int| 0 <= j < i ==> (#[trigger] m[j]).0 != k,
    ensures
        spec_tmap_insert(m, k, v) == m.update(i, (k, v)),
    decreases i,
{
    if i == 0 {
        assert(seq![(k, v)] + m.drop_first() =~= m.update(0, (k, v)));
    } else {
        lemma_tmap_insert_at(m.drop_first(), k, v, i - 1);
        assert(seq![m[0]] + m.drop_first().update(i - 1, (k, v)) =~= m.update(i, (k, v)));
    }
}

proof fn lemma_tmap_insert_none(m: Seq<(Seq<char>, Seq<char>)>, k: Seq<char>, v: Seq<char>)
    requires
        forall|j: int| 0 <= j < m.len() ==> (#[trigger] m[j]).0 != k,
    ensures
        spec_tmap_insert(m, k, v) == m.push((k, v)),
    decreases m.len(),
{
    if m.len() == 0 {
        assert(seq![(k, v)] =~= m.push((k, v)));
    } else {
        lemma_tmap_insert_none(m.drop_first(), k, v);
        assert(seq![m[0]] + m.drop_first().push((k, v)) =~= m.push((k, v)));
    }
}

proof fn lemma_tmap_remove_at(m: Seq<(Seq<char>, Seq<char>)>, k: Seq<char>, i: int)
    requires
        0 <= i < m.len(),
        m[i].0 == k,
        forall|j: int| 0 <= j < i ==> (#[trigger] m[j]).0 != k,
    ensures
        spec_tmap_remove(m, k) == m.subrange(0, i) + m.subrange(i + 1, m.len() as int),
    decreases i,
{
    if i == 0 {
        assert(m.drop_first() =~= m.subrange(0, 0) + m.subrange(1, m.len() as int));
    } else {
        lemma_tmap_remove_at(m.drop_first(), k, i - 1);
        assert(seq![m[0]] + (m.drop_first().subrange(0, i - 1) + m.drop_first().subrange(
            i,
            m.len() - 1,
        )) =~= m.subrange(0, i) + m.subrange(i + 1, m.len() as int));
    }
}

proof fn lemma_tmap_remove_none(m: Seq<(Seq<char>, Seq<char>)>, k: Seq<char>)
    requires
        forall|j: int| 0 <= j < m.len() ==> (#[trigger] m[j]).0 != k,
    ensures
        spec_tmap_remove(m, k) == m,
    decreases m.len(),
{
    if m.len() > 0 {
        lemma_tmap_remove_none(m.drop_first(), k);
        assert(seq![m[0]] + m.drop_first() =~= m);
    }
}

/// True when every key of the mapping view is a valid tag name and no two
/// entries share a key.
pub open spec fn spec_tag_map_wf(m: Seq<(Seq<char>, Seq<char>)>) -> bool {
    &&& forall|i: int| 0 <= i < m.len() ==> valid_tag_text((#[trigger] m[i]).0)
    &&& forall|i: int, j: int|
        0 <= i < m.len() && 0 <= j < m.len() && i != j ==> (#[trigger] m[i]).0 != (
        #[trigger] m[j]).0
}

/// A mapping from tag name to string value.  Keys are unique; iteration
/// order is the insertion order, which is stable within a process run.
#[derive(Debug)]
pub struct TagMap {
    entries: Vec<(TagName, String)>,
}

impl View for TagMap {
    type V = Seq<(Seq<char>, Seq<char>)>;

    closed spec fn view(&self) -> Seq<(Seq<char>, Seq<char>)> {
        self.entries@.map_values(|e: (TagName, String)| (e.0@, e.1@))
    }
}

impl Clone for TagMap {
    fn clone(&self) -> (r: Self)
        ensures
            r@ == self@,
    {
        proof {
            use_type_invariant(self);
        }
        let mut entries: Vec<(TagName, String)> = Vec::new();
        let n = self.entries.len();
        let mut i: usize = 0;
        while i < n
            invariant
                n == self.entries@.len(),
                i <= n,
                entries@.len() == i,
                forall|j: int| 0 <= j < i ==> #[trigger] entries@[j] == self.entries@[j],
                spec_tag_map_wf(self@),
            decreases n - i,
        {
            let e = &self.entries[i];
            let name = e.0.clone();
            let value = e.1.clone();
            entries.push((name, value));
            i += 1;
        }
        proof {
            assert(entries@ =~= self.entries@);
        }
        TagMap { entries }
    }
}

impl TagMap {
    #[verifier::type_invariant]
    spec fn type_inv(self) -> bool {
        spec_tag_map_wf(self@)
    }

    /// The empty mapping.
    pub fn new() -> (r: TagMap)
        ensures
            r@ == Seq::<(Seq<char>, Seq<char>)>::empty(),
    {
        TagMap { entries: Vec::new() }
    }

    /// The number of entries.
    pub fn len(&self) -> (r: usize)
        ensures
            r == self@.len(),
    {
        self.entries.len()
    }

    /// The entry at an index, as borrowed name and value.
    pub fn entry_at(&self, i: usize) -> (r: (&TagName, &String))
        requires
            i < self@.len(),
        ensures
            r.0@ == self@[i as int].0,
            r.1@ == self@[i as int].1,
    {
        let e = &self.entries[i];
        (&e.0, &e.1)
    }

    /// Sets the value under a name.  An entry with the same name is
    /// overwritten in place; a new name is appended.
    pub fn insert(&mut self, key: TagName, value: String)
        ensures
            final(self)@ == spec_tmap_insert(old(self)@, key@, value@),
    {
        proof {
            use_type_invariant(&*self);
            use_type_invariant(&key);
        }
        let mut entries: Vec<(TagName, String)> = Vec::new();
        std::mem::swap(&mut entries, &mut self.entries);
        let ghost m = old(self)@;
        proof {
            assert(m =~= entries@.map_values(|e: (TagName, String)| (e.0@, e.1@)));
            assert(spec_tag_map_wf(m));
        }
        let n = entries.len();
        let mut i: usize = 0;
        while i < n
            invariant
                n == entries@.len(),
                i <= n,
                m == old(self)@,
                spec_tag_map_wf(m),
                valid_tag_text(key@),
                m == entries@.map_values(|e: (TagName, String)| (e.0@, e.1@)),
                forall|j: int| 0 <= j < i ==> (#[trigger] m[j]).0 != key@,
            decreases n - i,
        {
            if str_eq(entries[i].0.as_ref(), key.as_ref()) {
                entries.remove(i);
                entries.insert(i, (key, value));
                proof {
                    let u = m.update(i as int, (key@, value@));
                    assert(entries@.map_values(|e: (TagName, String)| (e.0@, e.1@)) =~= u);
                    assert forall|a: int| 0 <= a < u.len() implies (#[trigger] u[a]).0
                        == m[a].0 by {
                        if a == i as int {
                            assert(m[a].0 == key@);
                        }
                    };
                    assert forall|a: int| 0 <= a < u.len() implies valid_tag_text(
                        (#[trigger] u[a]).0,
                    ) by {
                        assert(u[a].0 == m[a].0);
                    };
                    assert forall|a: int, b: int|
                        0 <= a < u.len() && 0 <= b < u.len() && a != b implies (#[trigger] u[a]).0
                        != (#[trigger] u[b]).0 by {
                        assert(u[a].0 == m[a].0);
                        assert(u[b].0 == m[b].0);
                    };
                    assert(spec_tag_map_wf(u));
                }
                self.entries = entries;
                proof {
                    assert(m[i as int].0 == key@);
                    assert(self@ =~= m.update(i as int, (key@, value@)));
                    lemma_tmap_insert_at(m, key@, value@, i as int);
                }
                return ;
            }
            i += 1;
        }
        entries.push((key, value));
        proof {
            let u = m.push((key@, value@));
            assert(entries@.map_values(|e: (TagName, String)| (e.0@, e.1@)) =~= u);
            assert(forall|a: int| 0 <= a < m.len() ==> #[trigger] u[a] == m[a]);
            assert forall|a: int, b: int|
                0 <= a < u.len() && 0 <= b < u.len() && a != b implies (#[trigger] u[a]).0 != (
            #[trigger] u[b]).0 by {
                if a < m.len() && b < m.len() {
                } else if a < m.len() {
                    assert(u[b].0 == key@ && u[a].0 == m[a].0);
                } else {
                    assert(u[a].0 == key@ && u[b].0 == m[b].0);
                }
            };
            assert(spec_tag_map_wf(u));
        }
        self.entries = entries;
        proof {
            assert(self@ =~= m.push((key@, value@)));
            lemma_tmap_insert_none(m, key@, value@);
        }
    }

    /// The value under a name, if the name is present.
    pub fn get(&self, key: &str) -> (r: Option<&String>)
        ensures
            match spec_tmap_get(self@, key@) {
                Some(v) => r matches Some(s) && s@ == v,
                None => r is None,
            },
    {
        let n = self.entries.len();
        let mut i: usize = 0;
        while i < n
            invariant
                n == self.entries@.len(),
                i <= n,
                forall|j: int| 0 <= j < i ==> (#[trigger] self@[j]).0 != key@,
            decreases n - i,
        {
            if str_eq(self.entries[i].0.as_ref(), key) {
                proof {
                    assert(0 <= i < self@.len() && self@[i as int].0 == key@);
                    lemma_tmap_get_at(self@, key@, i as int);
                }
                return Some(&self.entries[i].1);
            }
            i += 1;
        }
        proof {
            lemma_tmap_get_none(self@, key@);
        }
        None
    }

    /// True when the name is present.
    pub fn contains_key(&self, key: &str) -> (r: bool)
        ensures
            r == (spec_tmap_get(self@, key@) is Some),
    {
        self.get(key).is_some()
    }

    /// Removes the entry under a name, if present; the order of the other
    /// entries is kept.
    pub fn remove(&mut self, key: &str)
        ensures
            final(self)@ == spec_tmap_remove(old(self)@, key@),
    {
        proof {
            use_type_invariant(&*self);
        }
        let mut entries: Vec<(TagName, String)> = Vec::new();
        std::mem::swap(&mut entries, &mut self.entries);
        let ghost m = old(self)@;
        proof {
            assert(m =~= entries@.map_values(|e: (TagName, String)| (e.0@, e.1@)));
            assert(spec_tag_map_wf(m));
        }
        let n = entries.len();
        let mut i: usize = 0;
        while i < n
            invariant
                n == entries@.len(),
                i <= n,
                m == old(self)@,
                spec_tag_map_wf(m),
                m == entries@.map_values(|e: (TagName, String)| (e.0@, e.1@)),
                forall|j: int| 0 <= j < i ==> (#[trigger] m[j]).0 != key@,
            decreases n - i,
        {
            if str_eq(entries[i].0.as_ref(), key) {
                entries.remove(i);
                proof {
                    let u = m.subrange(0, i as int) + m.subrange(i as int + 1, m.len() as int);
                    assert(entries@.map_values(|e: (TagName, String)| (e.0@, e.1@)) =~= u);
                    assert(forall|a: int|
                        0 <= a < u.len() ==> #[trigger] u[a] == (if a < i as int {
                            m[a]
                        } else {
                            m[a + 1]
                        }));
                    assert forall|a: int| 0 <= a < u.len() implies valid_tag_text(
                        (#[trigger] u[a]).0,
                    ) by {
                        if a < i as int {
                            assert(u[a] == m[a]);
                        } else {
                            assert(u[a] == m[a + 1]);
                        }
                    };
                    assert forall|a: int, b: int|
                        0 <= a < u.len() && 0 <= b < u.len() && a != b implies (#[trigger] u[a]).0
                        != (#[trigger] u[b]).0 by {
                        let a0 = if a < i as int {
                            a
                        } else {
                            a + 1
                        };
                        let b0 = if b < i as int {
                            b
                        } else {
                            b + 1
                        };
                        assert(u[a] == m[a0] && u[b] == m[b0] && a0 != b0);
                    };
                    assert(spec_tag_map_wf(u));
                }
                self.entries = entries;
                proof {
                    assert(m[i as int].0 == key@);
                    assert(self@ =~= m.subrange(0, i as int) + m.subrange(
                        i as int + 1,
                        m.len() as int,
                    ));
                    lemma_tmap_remove_at(m, key@, i as int);
                }
                return ;
            }
            i += 1;
        }
        self.entries = entries;
        proof {
            assert(self@ =~= m);
            lemma_tmap_remove_none(m, key@);
        }
    }

    /// The names in the mapping, in iteration order.
    pub fn keys(&self) -> (r: Vec<TagName>)
        ensures
            r@.len() == self@.len(),
            forall|j: int| 0 <= j < r@.len() ==> (#[trigger] r@[j])@ == self@[j].0,
    {
        proof {
            use_type_invariant(self);
        }
        let mut out: Vec<TagName> = Vec::new();
        let n = self.entries.len();
        let mut i: usize = 0;
        while i < n
            invariant
                n == self.entries@.len(),
                i <= n,
                out@.len() == i,
                forall|j: int| 0 <= j < i ==> (#[trigger] out@[j])@ == self@[j].0,
                spec_tag_map_wf(self@),
            decreases n - i,
        {
            out.push(self.entries[i].0.clone());
            i += 1;
        }
        out
    }
}

} // verus!
