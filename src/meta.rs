//! License metadata: string keys to string values, held sorted by key so that
//! the signing input does not depend on the order of insertion.
use vstd::prelude::*;

verus! {

/// Code-point lexicographic order on texts: `a` comes strictly before `b`.
pub open spec fn key_lt(a: Seq<char>, b: Seq<char>) -> bool
    decreases a.len(),
{
    if a.len() == 0 {
        b.len() > 0
    } else if b.len() == 0 {
        false
    } else if a[0] != b[0] {
        (a[0] as int) < (b[0] as int)
    } else {
        key_lt(a.drop_first(), b.drop_first())
    }
}

pub proof fn lemma_key_lt_irreflexive(a: Seq<char>)
    ensures
        !key_lt(a, a),
    decreases a.len(),
{
    if a.len() > 0 {
        lemma_key_lt_irreflexive(a.drop_first());
    }
}

pub proof fn lemma_key_lt_transitive(a: Seq<char>, b: Seq<char>, c: Seq<char>)
    requires
        key_lt(a, b),
        key_lt(b, c),
    ensures
        key_lt(a, c),
    decreases a.len(),
{
    if a.len() > 0 && b.len() > 0 && c.len() > 0 && a[0] == b[0] && b[0] == c[0] {
        lemma_key_lt_transitive(a.drop_first(), b.drop_first(), c.drop_first());
    }
}

pub proof fn lemma_key_lt_total(a: Seq<char>, b: Seq<char>)
    ensures
        a == b || key_lt(a, b) || key_lt(b, a),
    decreases a.len(),
{
    if a.len() > 0 && b.len() > 0 {
        if a[0] == b[0] {
            lemma_key_lt_total(a.drop_first(), b.drop_first());
            if a.drop_first() == b.drop_first() {
                assert(a =~= seq![a[0]] + a.drop_first());
                assert(b =~= seq![b[0]] + b.drop_first());
            }
        } else {
            assert((a[0] as int) != (b[0] as int));
        }
    } else if a.len() == 0 && b.len() == 0 {
        assert(a =~= b);
    }
}

proof fn lemma_key_lt_skip(a: Seq<char>, b: Seq<char>, i: int)
    requires
        0 <= i <= a.len(),
        i <= b.len(),
        a.subrange(0, i) == b.subrange(0, i),
    ensures
        key_lt(a, b) == key_lt(a.skip(i), b.skip(i)),
    decreases i,
{
    if i > 0 {
        assert(a[0] == a.subrange(0, i)[0]);
        assert(b[0] == b.subrange(0, i)[0]);
        assert(a.drop_first().subrange(0, i - 1) =~= a.subrange(0, i).drop_first());
        assert(b.drop_first().subrange(0, i - 1) =~= b.subrange(0, i).drop_first());
        lemma_key_lt_skip(a.drop_first(), b.drop_first(), i - 1);
        assert(a.drop_first().skip(i - 1) =~= a.skip(i));
        assert(b.drop_first().skip(i - 1) =~= b.skip(i));
    } else {
        assert(a.skip(0) =~= a);
        assert(b.skip(0) =~= b);
    }
}

/// Whether `a` comes strictly before `b` in code-point order.
pub fn text_lt(a: &str, b: &str) -> (r: bool)
    ensures
        r == key_lt(a@, b@),
{
    let la = a.unicode_len();
    let lb = b.unicode_len();
    let mut i: usize = 0;
    while i < la && i < lb
        invariant
            la == a@.len(),
            lb == b@.len(),
            i <= la,
            i <= lb,
            a@.subrange(0, i as int) == b@.subrange(0, i as int),
        decreases la - i,
    {
        let ca = a.get_char(i);
        let cb = b.get_char(i);
        if ca != cb {
            proof {
                lemma_key_lt_skip(a@, b@, i as int);
                assert(a@.skip(i as int)[0] == ca);
                assert(b@.skip(i as int)[0] == cb);
                assert((ca as int) != (cb as int));
            }
            return (ca as u32) < (cb as u32);
        }
        proof {
            assert(a@.subrange(0, i as int + 1) =~= a@.subrange(0, i as int).push(ca));
            assert(b@.subrange(0, i as int + 1) =~= b@.subrange(0, i as int).push(cb));
        }
        i = i + 1;
    }
    proof {
        lemma_key_lt_skip(a@, b@, i as int);
    }
    i == la && i < lb
}

/// Entries strictly increasing by key.
pub open spec fn sorted_by_key(s: Seq<(Seq<char>, Seq<char>)>) -> bool {
    forall|i: int, j: int| 0 <= i < j < s.len() ==> key_lt(#[trigger] s[i].0, #[trigger] s[j].0)
}

/// The mapping that a sequence of distinct-keyed entries describes.
pub open spec fn entries_map(s: Seq<(Seq<char>, Seq<char>)>) -> Map<Seq<char>, Seq<char>>
    decreases s.len(),
{
    if s.len() == 0 {
        Map::empty()
    } else {
        entries_map(s.drop_first()).insert(s[0].0, s[0].1)
    }
}

proof fn lemma_insert_sorted_map(s: Seq<(Seq<char>, Seq<char>)>, k: Seq<char>, v: Seq<char>)
    ensures
        entries_map(insert_sorted(s, k, v)) == entries_map(s).insert(k, v),
    decreases s.len(),
{
    let r = insert_sorted(s, k, v);
    if s.len() == 0 {
        assert(r.len() == 1 && r[0] == (k, v));
        assert(r.drop_first() =~= Seq::<(Seq<char>, Seq<char>)>::empty());
        assert(entries_map(r.drop_first()) == Map::<Seq<char>, Seq<char>>::empty());
        assert(entries_map(r) =~= entries_map(s).insert(k, v));
    } else if key_lt(s[0].0, k) {
        let t = s.drop_first();
        lemma_insert_sorted_map(t, k, v);
        assert(r.drop_first() =~= insert_sorted(t, k, v));
        assert(r[0] == s[0]);
        assert(s.drop_first() == t);
        if s[0].0 == k {
            lemma_key_lt_irreflexive(k);
        }
        assert(s[0].0 != k);
        assert(entries_map(r) == entries_map(insert_sorted(t, k, v)).insert(s[0].0, s[0].1));
        assert(entries_map(s) == entries_map(t).insert(s[0].0, s[0].1));
        assert(entries_map(r) =~= entries_map(s).insert(k, v));
    } else if s[0].0 == k {
        assert(r.drop_first() =~= s.drop_first());
        assert(entries_map(r) =~= entries_map(s).insert(k, v));
    } else {
        assert(r.drop_first() =~= s);
    }
}

proof fn lemma_entries_map_keys(s: Seq<(Seq<char>, Seq<char>)>)
    requires
        sorted_by_key(s),
    ensures
        forall|k: Seq<char>| #[trigger] entries_map(s).contains_key(k) <==> exists|i: int|
            0 <= i < s.len() && s[i].0 == k,
        forall|i: int| 0 <= i < s.len() ==> entries_map(s)[#[trigger] s[i].0] == s[i].1,
    decreases s.len(),
{
    if s.len() > 0 {
        let t = s.drop_first();
        assert(sorted_by_key(t)) by {
            assert forall|i: int, j: int| 0 <= i < j < t.len() implies key_lt(
                #[trigger] t[i].0,
                #[trigger] t[j].0,
            ) by {
                assert(t[i] == s[i + 1] && t[j] == s[j + 1]);
            }
        }
        lemma_entries_map_keys(t);
        assert(entries_map(s) == entries_map(t).insert(s[0].0, s[0].1));
        assert forall|k: Seq<char>| #[trigger] entries_map(s).contains_key(k) <==> exists|i: int|
            0 <= i < s.len() && s[i].0 == k by {
            if entries_map(s).contains_key(k) && k != s[0].0 {
                assert(entries_map(t).contains_key(k));
                let j = choose|j: int| 0 <= j < t.len() && t[j].0 == k;
                assert(t[j] == s[j + 1]);
                assert(s[j + 1].0 == k);
            }
            if exists|i: int| 0 <= i < s.len() && s[i].0 == k {
                let i = choose|i: int| 0 <= i < s.len() && s[i].0 == k;
                if i > 0 {
                    assert(t[i - 1].0 == k);
                }
            }
        }
        assert forall|i: int| 0 <= i < s.len() implies entries_map(s)[#[trigger] s[i].0] == s[i].1 by {
            if i > 0 {
                assert(t[i - 1] == s[i]);
                assert(key_lt(s[0].0, s[i].0));
                if s[0].0 == s[i].0 {
                    lemma_key_lt_irreflexive(s[0].0);
                }
            }
        }
    }
}

/// Two key-sorted entry sequences that describe the same mapping are equal.
pub proof fn lemma_sorted_entries_unique(s: Seq<(Seq<char>, Seq<char>)>, t: Seq<(Seq<char>, Seq<char>)>)
    requires
        sorted_by_key(s),
        sorted_by_key(t),
        entries_map(s) == entries_map(t),
    ensures
        s == t,
    decreases s.len() + t.len(),
{
    lemma_entries_map_keys(s);
    lemma_entries_map_keys(t);
    if s.len() == 0 || t.len() == 0 {
        if s.len() > 0 {
            assert(entries_map(t).contains_key(s[0].0));
        }
        if t.len() > 0 {
            assert(entries_map(s).contains_key(t[0].0));
        }
        assert(s =~= t);
    } else {
        let a = s[0].0;
        let b = t[0].0;
        if a != b {
            lemma_key_lt_total(a, b);
            if key_lt(a, b) {
                assert(entries_map(t).contains_key(a));
                let j = choose|j: int| 0 <= j < t.len() && t[j].0 == a;
                if j > 0 {
                    assert(key_lt(b, t[j].0));
                    lemma_key_lt_transitive(a, b, a);
                }
                lemma_key_lt_irreflexive(a);
            } else {
                assert(entries_map(s).contains_key(b));
                let j = choose|j: int| 0 <= j < s.len() && s[j].0 == b;
                if j > 0 {
                    assert(key_lt(a, s[j].0));
                    lemma_key_lt_transitive(b, a, b);
                }
                lemma_key_lt_irreflexive(b);
            }
        }
        assert(s[0].1 == entries_map(s)[a]);
        assert(t[0].1 == entries_map(t)[b]);
        let s2 = s.drop_first();
        let t2 = t.drop_first();
        assert(sorted_by_key(s2)) by {
            assert forall|i: int, j: int| 0 <= i < j < s2.len() implies key_lt(
                #[trigger] s2[i].0,
                #[trigger] s2[j].0,
            ) by {
                assert(s2[i] == s[i + 1] && s2[j] == s[j + 1]);
            }
        }
        assert(sorted_by_key(t2)) by {
            assert forall|i: int, j: int| 0 <= i < j < t2.len() implies key_lt(
                #[trigger] t2[i].0,
                #[trigger] t2[j].0,
            ) by {
                assert(t2[i] == t[i + 1] && t2[j] == t[j + 1]);
            }
        }
        lemma_entries_map_keys(s2);
        lemma_entries_map_keys(t2);
        assert(!entries_map(s2).contains_key(a)) by {
            if entries_map(s2).contains_key(a) {
                let j = choose|j: int| 0 <= j < s2.len() && s2[j].0 == a;
                assert(key_lt(s[0].0, s[j + 1].0));
                lemma_key_lt_irreflexive(a);
            }
        }
        assert(!entries_map(t2).contains_key(a)) by {
            if entries_map(t2).contains_key(a) {
                let j = choose|j: int| 0 <= j < t2.len() && t2[j].0 == a;
                assert(key_lt(t[0].0, t[j + 1].0));
                lemma_key_lt_irreflexive(a);
            }
        }
        assert(entries_map(s2) =~= entries_map(s).remove(a));
        assert(entries_map(t2) =~= entries_map(t).remove(a));
        lemma_sorted_entries_unique(s2, t2);
        assert(s =~= seq![s[0]] + s2);
        assert(t =~= seq![t[0]] + t2);
    }
}

/// `s` with `(k, v)` put in its place by key, replacing the entry of key `k`.
pub open spec fn insert_sorted(
    s: Seq<(Seq<char>, Seq<char>)>,
    k: Seq<char>,
    v: Seq<char>,
) -> Seq<(Seq<char>, Seq<char>)>
    decreases s.len(),
{
    if s.len() == 0 {
        seq![(k, v)]
    } else if key_lt(s[0].0, k) {
        seq![s[0]] + insert_sorted(s.drop_first(), k, v)
    } else if s[0].0 == k {
        seq![(k, v)] + s.drop_first()
    } else {
        seq![(k, v)] + s
    }
}

proof fn lemma_insert_shape(s: Seq<(Seq<char>, Seq<char>)>, k: Seq<char>, v: Seq<char>, i: int)
    requires
        0 <= i <= s.len(),
        forall|j: int| 0 <= j < i ==> key_lt(#[trigger] s[j].0, k),
        i < s.len() ==> !key_lt(s[i].0, k),
    ensures
        (i < s.len() && s[i].0 == k) ==> insert_sorted(s, k, v) == s.update(i, (k, v)),
        !(i < s.len() && s[i].0 == k) ==> insert_sorted(s, k, v) == s.insert(i, (k, v)),
    decreases i,
{
    if i == 0 {
        if s.len() == 0 {
            assert(insert_sorted(s, k, v) =~= s.insert(0, (k, v)));
        } else if s[0].0 == k {
            assert(insert_sorted(s, k, v) =~= s.update(0, (k, v)));
        } else {
            assert(insert_sorted(s, k, v) =~= s.insert(0, (k, v)));
        }
    } else {
        let t = s.drop_first();
        assert(key_lt(s[0].0, k));
        assert forall|j: int| 0 <= j < i - 1 implies key_lt(#[trigger] t[j].0, k) by {
            assert(t[j] == s[j + 1]);
        }
        lemma_insert_shape(t, k, v, i - 1);
        if i < s.len() && s[i].0 == k {
            assert(insert_sorted(s, k, v) =~= s.update(i, (k, v)));
        } else {
            assert(insert_sorted(s, k, v) =~= s.insert(i, (k, v)));
        }
    }
}

proof fn lemma_insert_sorted_keeps_order(
    s: Seq<(Seq<char>, Seq<char>)>,
    k: Seq<char>,
    v: Seq<char>,
    i: int,
)
    requires
        sorted_by_key(s),
        0 <= i <= s.len(),
        forall|j: int| 0 <= j < i ==> key_lt(#[trigger] s[j].0, k),
        i < s.len() ==> !key_lt(s[i].0, k),
    ensures
        sorted_by_key(insert_sorted(s, k, v)),
{
    lemma_insert_shape(s, k, v, i);
    if i < s.len() && s[i].0 == k {
        let t = s.update(i, (k, v));
        assert forall|p: int, q: int| 0 <= p < q < t.len() implies key_lt(
            #[trigger] t[p].0,
            #[trigger] t[q].0,
        ) by {
            assert(t[p].0 == s[p].0);
            assert(t[q].0 == s[q].0);
        }
    } else {
        if i < s.len() {
            lemma_key_lt_total(s[i].0, k);
        }
        assert forall|j: int| i <= j < s.len() implies key_lt(k, #[trigger] s[j].0) by {
            if j > i {
                lemma_key_lt_transitive(k, s[i].0, s[j].0);
            }
        }
        let t = s.insert(i, (k, v));
        assert forall|p: int, q: int| 0 <= p < q < t.len() implies key_lt(
            #[trigger] t[p].0,
            #[trigger] t[q].0,
        ) by {
            if q < i {
                assert(t[p] == s[p] && t[q] == s[q]);
            } else if q == i {
                assert(t[p] == s[p]);
            } else if p < i {
                assert(t[p] == s[p] && t[q] == s[q - 1]);
                lemma_key_lt_transitive(s[p].0, k, s[q - 1].0);
            } else if p == i {
                assert(t[q] == s[q - 1]);
            } else {
                assert(t[p] == s[p - 1] && t[q] == s[q - 1]);
            }
        }
    }
}

/// The mapping that a list of pairs builds when each is inserted in turn, a
/// later pair replacing an earlier one of the same key.
pub open spec fn pairs_map(s: Seq<(String, String)>) -> Map<Seq<char>, Seq<char>>
    decreases s.len(),
{
    if s.len() == 0 {
        Map::empty()
    } else {
        pairs_map(s.drop_last()).insert(s.last().0@, s.last().1@)
    }
}

/// Metadata of a license.
#[derive(Clone, Debug)]
pub struct Metadata {
    entries: Vec<(String, String)>,
}

impl View for Metadata {
    type V = Seq<(Seq<char>, Seq<char>)>;

    /// The entries in key order.
    closed spec fn view(&self) -> Self::V {
        self.entries@.map_values(|e: (String, String)| (e.0@, e.1@))
    }
}

impl Metadata {
    pub open spec fn wf(&self) -> bool {
        sorted_by_key(self@)
    }

    /// The metadata as a mapping from key to value.
    pub open spec fn as_map(&self) -> Map<Seq<char>, Seq<char>> {
        entries_map(self@)
    }

    /// No entries.
    pub fn new() -> (r: Metadata)
        ensures
            r.wf(),
            r@.len() == 0,
    {
        Metadata { entries: Vec::new() }
    }

    /// The metadata that inserting `pairs` in order gives.
    pub fn from_pairs(pairs: &Vec<(String, String)>) -> (r: Metadata)
        ensures
            r.wf(),
            r.as_map() == pairs_map(pairs@),
    {
        let mut m = Metadata::new();
        let mut i: usize = 0;
        assert(m@ =~= Seq::<(Seq<char>, Seq<char>)>::empty());
        while i < pairs.len()
            invariant
                i <= pairs@.len(),
                m.wf(),
                m.as_map() == pairs_map(pairs@.subrange(0, i as int)),
            decreases pairs@.len() - i,
        {
            let k = pairs[i].0.clone();
            let v = pairs[i].1.clone();
            m.insert(k, v);
            assert(pairs@.subrange(0, i as int + 1).drop_last() =~= pairs@.subrange(0, i as int));
            i = i + 1;
        }
        assert(pairs@.subrange(0, pairs@.len() as int) =~= pairs@);
        m
    }

    pub fn len(&self) -> (r: usize)
        ensures
            r == self@.len(),
    {
        self.entries.len()
    }

    /// The `i`-th entry in key order.
    pub fn entry(&self, i: usize) -> (r: (&String, &String))
        requires
            i < self@.len(),
        ensures
            r.0@ == self@[i as int].0,
            r.1@ == self@[i as int].1,
    {
        (&self.entries[i].0, &self.entries[i].1)
    }

    /// Sets `key` to `value`, replacing an earlier value of the same key.
    pub fn insert(&mut self, key: String, value: String)
        requires
            old(self).wf(),
        ensures
            final(self).wf(),
            final(self)@ == insert_sorted(old(self)@, key@, value@),
            final(self).as_map() == old(self).as_map().insert(key@, value@),
    {
        let n = self.entries.len();
        let mut i: usize = 0;
        while i < n && text_lt(self.entries[i].0.as_str(), key.as_str())
            invariant
                n == self.entries@.len(),
                i <= n,
                forall|j: int| 0 <= j < i ==> key_lt(#[trigger] self@[j].0, key@),
            decreases n - i,
        {
            i = i + 1;
        }
        let ghost old_v = self@;
        proof {
            lemma_insert_shape(old_v, key@, value@, i as int);
            lemma_insert_sorted_keeps_order(old_v, key@, value@, i as int);
            lemma_insert_sorted_map(old_v, key@, value@);
        }
        if i < n && self.entries[i].0 == key {
            self.entries.set(i, (key, value));
            assert(self@ =~= old_v.update(i as int, (key@, value@)));
        } else {
            self.entries.insert(i, (key, value));
            assert(self@ =~= old_v.insert(i as int, (key@, value@)));
        }
    }
}

} // verus!
