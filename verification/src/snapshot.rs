//! What the agent observed of the monitored containers, keyed by
//! `input:container_id` and kept in key order.
use crate::text::{chars_of, eq_seq, push_chars, push_char};
use vstd::prelude::*;

verus! {

/// One observed container.
#[derive(Debug, Clone, PartialEq, Eq)]
pub struct ObservedContainer {
    pub input: String,
    pub docker_address: String,
    pub container: String,
    pub container_id: String,
    pub project: String,
    pub service: String,
    pub image: String,
    pub state: String,
    pub health: String,
    pub status: String,
}

pub struct ObservedView {
    pub input: Seq<char>,
    pub docker_address: Seq<char>,
    pub container: Seq<char>,
    pub container_id: Seq<char>,
    pub project: Seq<char>,
    pub service: Seq<char>,
    pub image: Seq<char>,
    pub state: Seq<char>,
    pub health: Seq<char>,
    pub status: Seq<char>,
}

impl View for ObservedContainer {
    type V = ObservedView;

    open spec fn view(&self) -> ObservedView {
        ObservedView {
            input: self.input@,
            docker_address: self.docker_address@,
            container: self.container@,
            container_id: self.container_id@,
            project: self.project@,
            service: self.service@,
            image: self.image@,
            state: self.state@,
            health: self.health@,
            status: self.status@,
        }
    }
}

impl ObservedContainer {
    /// A copy of this observation.
    pub fn copy(&self) -> (r: ObservedContainer)
        ensures
            r@ == self@,
    {
        ObservedContainer {
            input: self.input.clone(),
            docker_address: self.docker_address.clone(),
            container: self.container.clone(),
            container_id: self.container_id.clone(),
            project: self.project.clone(),
            service: self.service.clone(),
            image: self.image.clone(),
            state: self.state.clone(),
            health: self.health.clone(),
            status: self.status.clone(),
        }
    }
}

/// Lexicographic order of texts by code point, which is the order of `String`.
pub open spec fn key_lt(a: Seq<char>, b: Seq<char>) -> bool
    decreases a.len(),
{
    if a.len() == 0 {
        b.len() > 0
    } else if b.len() == 0 {
        false
    } else if a[0] != b[0] {
        a[0] < b[0]
    } else {
        key_lt(a.drop_first(), b.drop_first())
    }
}

pub proof fn lemma_key_lt_irreflexive(a: Seq<char>)
    ensures
        !key_lt(a, a),
    decreases a.len(),
{
    if a.len() > 0 {
        lemma_key_lt_irreflexive(a.drop_first());
    }
}

pub proof fn lemma_key_lt_transitive(a: Seq<char>, b: Seq<char>, c: Seq<char>)
    requires
        key_lt(a, b),
        key_lt(b, c),
    ensures
        key_lt(a, c),
    decreases a.len(),
{
    if a.len() > 0 && b.len() > 0 && c.len() > 0 {
        if a[0] == b[0] && b[0] == c[0] {
            lemma_key_lt_transitive(a.drop_first(), b.drop_first(), c.drop_first());
        }
    }
}

pub proof fn lemma_key_lt_total(a: Seq<char>, b: Seq<char>)
    ensures
        a == b || key_lt(a, b) || key_lt(b, a),
    decreases a.len(),
{
    if a.len() > 0 && b.len() > 0 {
        if a[0] == b[0] {
            lemma_key_lt_total(a.drop_first(), b.drop_first());
            if a.drop_first() == b.drop_first() {
                assert(a =~= seq![a[0]] + a.drop_first());
                assert(b =~= seq![b[0]] + b.drop_first());
            }
        } else {

        }
    } else if a.len() == 0 && b.len() == 0 {
        assert(a =~= b);
    }
}

/// Whether `a` comes before `b`.
pub fn key_less(a: &Vec<char>, b: &Vec<char>) -> (r: bool)
    ensures
        r == key_lt(a@, b@),
{
    let mut i: usize = 0;
    assert(a@.subrange(0, a@.len() as int) =~= a@);
    assert(b@.subrange(0, b@.len() as int) =~= b@);
    loop
        invariant
            i <= a.len(),
            i <= b.len(),
            key_lt(a@, b@) == key_lt(
                a@.subrange(i as int, a@.len() as int),
                b@.subrange(i as int, b@.len() as int),
            ),
        decreases a.len() - i,
    {
        let ghost sa = a@.subrange(i as int, a@.len() as int);
        let ghost sb = b@.subrange(i as int, b@.len() as int);
        if i == a.len() {
            return i < b.len();
        }
        if i == b.len() {
            return false;
        }
        assert(sa[0] == a@[i as int] && sb[0] == b@[i as int]);
        if a[i] != b[i] {
            return a[i] < b[i];
        }
        assert(sa.drop_first() =~= a@.subrange(i + 1, a@.len() as int));
        assert(sb.drop_first() =~= b@.subrange(i + 1, b@.len() as int));
        i = i + 1;
    }
}

/// The observation for `key` in an entry sequence.
pub open spec fn lookup(s: Seq<(Seq<char>, ObservedView)>, key: Seq<char>) -> Option<ObservedView>
    decreases s.len(),
{
    if s.len() == 0 {
        None
    } else if s[0].0 == key {
        Some(s[0].1)
    } else {
        lookup(s.drop_first(), key)
    }
}

/// Entries whose keys strictly increase.
pub open spec fn sorted_keys(s: Seq<(Seq<char>, ObservedView)>) -> bool {
    forall|i: int, j: int| 0 <= i < j < s.len() ==> key_lt(s[i].0, s[j].0)
}

/// The observations of one poll, in key order.
pub struct Snapshot {
    entries: Vec<(String, ObservedContainer)>,
}

pub open spec fn entry_views(v: Seq<(String, ObservedContainer)>) -> Seq<(Seq<char>, ObservedView)> {
    v.map_values(|e: (String, ObservedContainer)| (e.0@, e.1@))
}

impl View for Snapshot {
    type V = Seq<(Seq<char>, ObservedView)>;

    closed spec fn view(&self) -> Seq<(Seq<char>, ObservedView)> {
        entry_views(self.entries@)
    }
}

pub proof fn lemma_lookup(s: Seq<(Seq<char>, ObservedView)>, key: Seq<char>)
    ensures
        lookup(s, key) matches Some(o) ==> exists|i: int| 0 <= i < s.len() && s[i].0 == key && s[i].1 == o,
        lookup(s, key) is None ==> forall|i: int| 0 <= i < s.len() ==> s[i].0 != key,
    decreases s.len(),
{
    if s.len() > 0 && s[0].0 != key {
        lemma_lookup(s.drop_first(), key);
        if let Some(o) = lookup(s, key) {
            let i = choose|i: int| 0 <= i < s.drop_first().len() && s.drop_first()[i].0 == key && s.drop_first()[i].1 == o;
            assert(s[i + 1] == s.drop_first()[i]);
        } else {
            assert forall|i: int| 0 <= i < s.len() implies s[i].0 != key by {
                if i > 0 {
                    assert(s[i] == s.drop_first()[i - 1]);
                }
            }
        }
    }
}

/// In sorted entries, the entry at index `i` is what `lookup` finds for its key.
pub proof fn lemma_lookup_sorted(s: Seq<(Seq<char>, ObservedView)>, i: int)
    requires
        sorted_keys(s),
        0 <= i < s.len(),
    ensures
        lookup(s, s[i].0) == Some(s[i].1),
    decreases s.len(),
{
    if i > 0 {
        assert(s[0].0 != s[i].0) by {
            lemma_key_lt_irreflexive(s[i].0);
        }
        assert(sorted_keys(s.drop_first())) by {
            assert forall|a: int, b: int| 0 <= a < b < s.drop_first().len() implies key_lt(
                s.drop_first()[a].0,
                s.drop_first()[b].0,
            ) by {
                assert(s.drop_first()[a] == s[a + 1] && s.drop_first()[b] == s[b + 1]);
            }
        }
        lemma_lookup_sorted(s.drop_first(), i - 1);
        assert(s.drop_first()[i - 1] == s[i]);
    }
}

impl Snapshot {
    #[verifier::type_invariant]
    spec fn keys_increase(&self) -> bool {
        sorted_keys(entry_views(self.entries@))
    }

    /// An empty snapshot.
    pub fn new() -> (r: Snapshot)
        ensures
            r@ == Seq::<(Seq<char>, ObservedView)>::empty(),
    {
        let r = Snapshot { entries: Vec::new() };
        assert(entry_views(r.entries@) =~= Seq::<(Seq<char>, ObservedView)>::empty());
        r
    }

    /// A copy of this snapshot.
    pub fn copy(&self) -> (r: Snapshot)
        ensures
            r@ == self@,
    {
        proof {
            use_type_invariant(self);
        }
        let mut entries: Vec<(String, ObservedContainer)> = Vec::new();
        let mut i: usize = 0;
        while i < self.entries.len()
            invariant
                i <= self.entries.len(),
                entry_views(entries@) == entry_views(self.entries@).take(i as int),
            decreases self.entries.len() - i,
        {
            let ghost before = entry_views(entries@);
            let e = &self.entries[i];
            entries.push((e.0.clone(), e.1.copy()));
            assert(entry_views(entries@) =~= before.push(entry_views(self.entries@)[i as int]));
            i = i + 1;
        }
        assert(entry_views(self.entries@).take(self.entries.len() as int) =~= entry_views(
            self.entries@,
        ));
        Snapshot { entries }
    }

    /// The number of observations.
    pub fn len(&self) -> (n: usize)
        ensures
            n == self@.len(),
            sorted_keys(self@),
    {
        proof {
            use_type_invariant(self);
        }
        self.entries.len()
    }

    /// Whether nothing was observed.
    pub fn is_empty(&self) -> (b: bool)
        ensures
            b == (self@.len() == 0),
    {
        self.entries.len() == 0
    }

    /// The `i`-th entry in key order.
    pub fn entry(&self, i: usize) -> (r: (&String, &ObservedContainer))
        requires
            i < self@.len(),
        ensures
            r.0@ == self@[i as int].0,
            r.1@ == self@[i as int].1,
    {
        let e = &self.entries[i];
        (&e.0, &e.1)
    }

    /// The observation stored under `key`.
    pub fn get(&self, key: &Vec<char>) -> (r: Option<&ObservedContainer>)
        ensures
            match r {
                Some(o) => lookup(self@, key@) == Some(o@),
                None => lookup(self@, key@) is None,
            },
    {
        let ghost s = self@;
        let mut i: usize = 0;
        assert(s.subrange(0, s.len() as int) =~= s);
        while i < self.entries.len()
            invariant
                i <= self.entries.len(),
                s == entry_views(self.entries@),
                lookup(s, key@) == lookup(s.subrange(i as int, s.len() as int), key@),
            decreases self.entries.len() - i,
        {
            let ghost rest = s.subrange(i as int, s.len() as int);
            assert(rest[0] == s[i as int]);
            if eq_seq(&chars_of(self.entries[i].0.as_str()), key) {
                return Some(&self.entries[i].1);
            }
            assert(rest.drop_first() =~= s.subrange(i + 1, s.len() as int));
            i = i + 1;
        }
        None
    }

    /// Stores `value` under `key` unless the key is already present; the entries
    /// stay in key order.
    pub fn insert(&mut self, key: String, value: ObservedContainer) -> (inserted: bool)
        ensures
            inserted == (lookup(old(self)@, key@) is None),
            inserted ==> exists|p: int|
                0 <= p <= old(self)@.len() && final(self)@ == old(self)@.insert(
                    p,
                    (key@, value@),
                ),
            inserted ==> lookup(final(self)@, key@) == Some(value@),
            inserted ==> forall|k: Seq<char>| k != key@ ==> lookup(final(self)@, k) == lookup(
                old(self)@,
                k,
            ),
            !inserted ==> final(self)@ == old(self)@,
    {
        proof {
            use_type_invariant(&*self);
        }
        let ghost s = self@;
        let k = chars_of(key.as_str());
        let mut p: usize = 0;
        while p < self.entries.len() && key_less(&chars_of(self.entries[p].0.as_str()), &k)
            invariant
                p <= self.entries.len(),
                s == entry_views(self.entries@),
                sorted_keys(s),
                k@ == key@,
                forall|j: int| 0 <= j < p ==> key_lt(s[j].0, k@),
            decreases self.entries.len() - p,
        {
            assert(s[p as int].0 == self.entries@[p as int].0@);
            p = p + 1;
        }
        if p < self.entries.len() && eq_seq(&chars_of(self.entries[p].0.as_str()), &k) {
            proof {
                lemma_lookup_sorted(s, p as int);
            }
            return false;
        }
        proof {
            if p < s.len() {
                lemma_key_lt_total(s[p as int].0, k@);
            }
            assert forall|j: int| p <= j < s.len() implies key_lt(k@, s[j].0) by {
                if j > p {
                    lemma_key_lt_transitive(k@, s[p as int].0, s[j].0);
                }
            }
            assert forall|j: int| 0 <= j < s.len() implies s[j].0 != k@ by {
                lemma_key_lt_irreflexive(k@);
            }
            lemma_lookup(s, k@);
        }
        let ghost entry = (key@, value@);
        let mut entries: Vec<(String, ObservedContainer)> = Vec::new();
        assert(entry_views(entries@) =~= Seq::<(Seq<char>, ObservedView)>::empty());
        std::mem::swap(&mut entries, &mut self.entries);
        entries.insert(p, (key, value));
        proof {
            let t = s.insert(p as int, entry);
            assert(entry_views(entries@) =~= t);
            assert(sorted_keys(t)) by {
                assert forall|a: int, b: int| 0 <= a < b < t.len() implies key_lt(
                    t[a].0,
                    t[b].0,
                ) by {
                    if b < p {
                    } else if b == p {
                        assert(t[a] == s[a]);
                    } else if a < p {
                        assert(t[a] == s[a] && t[b] == s[b - 1]);
                        lemma_key_lt_transitive(s[a].0, k@, s[b - 1].0);
                    } else if a == p {
                        assert(t[b] == s[b - 1]);
                    } else {
                        assert(t[a] == s[a - 1] && t[b] == s[b - 1]);
                    }
                }
            }
            lemma_lookup_sorted(t, p as int);
            assert forall|q: Seq<char>| q != key@ implies lookup(t, q) == lookup(s, q) by {
                lemma_lookup(s, q);
                lemma_lookup(t, q);
                if let Some(o) = lookup(s, q) {
                    let i = choose|i: int| 0 <= i < s.len() && s[i].0 == q && s[i].1 == o;
                    let ti = if i < p {
                        i
                    } else {
                        i + 1
                    };
                    assert(t[ti] == s[i]);
                    lemma_lookup_sorted(t, ti);
                    lemma_lookup_sorted(s, i);
                } else {
                    assert forall|i: int| 0 <= i < t.len() implies t[i].0 != q by {
                        if i < p {
                            assert(t[i] == s[i]);
                        } else if i > p {
                            assert(t[i] == s[i - 1]);
                        }
                    }
                    if let Some(o) = lookup(t, q) {
                        let i = choose|i: int| 0 <= i < t.len() && t[i].0 == q && t[i].1 == o;
                        assert(false);
                    }
                }
            }
        }
        self.entries = entries;
        true
    }
}

} // verus!
