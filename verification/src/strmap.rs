//! A map from strings to strings, kept as a list of entries sorted by key, as
//! a `BTreeMap<String, String>` orders them.
use vstd::prelude::*;

verus! {

/// The entries of a string map, as a sequence of key and value.
pub type Entries = Seq<(Seq<char>, Seq<char>)>;

/// Whether `i` is the first index of `s` whose key is `k`.
pub open spec fn is_first_key_index(s: Entries, k: Seq<char>, i: int) -> bool {
    &&& 0 <= i < s.len()
    &&& s[i].0 == k
    &&& forall|j: int| 0 <= j < i ==> s[j].0 != k
}

/// Whether some entry of `s` has the key `k`.
pub open spec fn has_key(s: Entries, k: Seq<char>) -> bool {
    exists|i: int| 0 <= i < s.len() && s[i].0 == k
}

/// Whether `a` comes before `b` in the order of strings: character by
/// character by code point, a proper prefix first (the order of their UTF-8
/// bytes, which `String`'s `Ord` compares).
pub open spec fn key_lt(a: Seq<char>, b: Seq<char>) -> bool
    decreases a.len(),
{
    if a.len() == 0 {
        b.len() > 0
    } else if b.len() == 0 {
        false
    } else if a[0] != b[0] {
        (a[0] as int) < (b[0] as int)
    } else {
        key_lt(a.drop_first(), b.drop_first())
    }
}

/// The order of strings is strict and total.
pub proof fn lemma_key_lt_total(a: Seq<char>, b: Seq<char>)
    ensures
        !key_lt(a, a),
        key_lt(a, b) ==> !key_lt(b, a),
        a != b ==> key_lt(a, b) || key_lt(b, a),
    decreases a.len(),
{
    if a.len() > 0 {
        lemma_key_lt_total(a.drop_first(), a.drop_first());
    }
    if a.len() > 0 && b.len() > 0 {
        lemma_key_lt_total(a.drop_first(), b.drop_first());
        if a[0] != b[0] {
            assert((a[0] as int) != (b[0] as int));
        }
        if a != b && a[0] == b[0] {
            assert(a.drop_first() != b.drop_first()) by {
                if a.drop_first() == b.drop_first() {
                    assert(a =~= seq![a[0]] + a.drop_first());
                    assert(b =~= seq![b[0]] + b.drop_first());
                }
            }
        }
    }
    if a.len() == 0 && b.len() == 0 {
        assert(a =~= b);
    }
}

/// The order of strings is strict, total and transitive.
pub proof fn lemma_key_lt(a: Seq<char>, b: Seq<char>, c: Seq<char>)
    ensures
        !key_lt(a, a),
        key_lt(a, b) ==> !key_lt(b, a),
        a != b ==> key_lt(a, b) || key_lt(b, a),
        key_lt(a, b) && key_lt(b, c) ==> key_lt(a, c),
    decreases a.len(),
{
    lemma_key_lt_total(a, b);
    if a.len() > 0 && b.len() > 0 && c.len() > 0 {
        lemma_key_lt(a.drop_first(), b.drop_first(), c.drop_first());
    }
}

/// The entries are in increasing order of key.
pub open spec fn keys_sorted(s: Entries) -> bool {
    forall|i: int, j: int| 0 <= i < j < s.len() ==> key_lt(s[i].0, s[j].0)
}

/// Where a new key `k` goes among sorted entries: before the first entry
/// whose key comes after it, or at the end.
pub open spec fn insert_position(s: Entries, k: Seq<char>, i: int) -> int
    decreases s.len() - i,
{
    if i < 0 || i >= s.len() {
        s.len() as int
    } else if key_lt(k, s[i].0) {
        i
    } else {
        insert_position(s, k, i + 1)
    }
}

/// `s` with the value of `k` set to `v`: the entry of `k` keeps its place and
/// takes the new value, or a new entry goes where its key sorts.
pub open spec fn assoc_insert(s: Entries, k: Seq<char>, v: Seq<char>) -> Entries {
    if has_key(s, k) {
        s.update(choose|i: int| is_first_key_index(s, k, i), (k, v))
    } else {
        s.insert(insert_position(s, k, 0), (k, v))
    }
}

/// No two entries of `s` share a key.
pub open spec fn keys_distinct(s: Entries) -> bool {
    forall|i: int, j: int| 0 <= i < j < s.len() ==> s[i].0 != s[j].0
}

/// The entries of `s` as a map from key to value.
pub open spec fn entries_map(s: Entries) -> Map<Seq<char>, Seq<char>> {
    Map::new(
        |k: Seq<char>| has_key(s, k),
        |k: Seq<char>| s[choose|i: int| is_first_key_index(s, k, i)].1,
    )
}

proof fn lemma_first_key_index_from(s: Entries, k: Seq<char>, i: int)
    requires
        0 <= i < s.len(),
        s[i].0 == k,
    ensures
        exists|f: int| is_first_key_index(s, k, f),
    decreases i,
{
    if exists|j: int| 0 <= j < i && s[j].0 == k {
        let j = choose|j: int| 0 <= j < i && s[j].0 == k;
        lemma_first_key_index_from(s, k, j);
    } else {
        assert(is_first_key_index(s, k, i));
    }
}

proof fn lemma_first_key_index_exists(s: Entries, k: Seq<char>)
    requires
        has_key(s, k),
    ensures
        exists|i: int| is_first_key_index(s, k, i),
{
    let i = choose|i: int| 0 <= i < s.len() && s[i].0 == k;
    lemma_first_key_index_from(s, k, i);
}

/// The insertion position lies within the entries.
pub proof fn lemma_insert_position_bounds(s: Entries, k: Seq<char>, i: int)
    requires
        0 <= i,
    ensures
        i <= insert_position(s, k, i) <= s.len() || (i > s.len() && insert_position(s, k, i) == s.len()),
        insert_position(s, k, i) < s.len() ==> key_lt(k, s[insert_position(s, k, i)].0),
        forall|j: int| i <= j < insert_position(s, k, i) ==> !key_lt(k, #[trigger] s[j].0),
    decreases s.len() - i,
{
    if i < s.len() && !key_lt(k, s[i].0) {
        lemma_insert_position_bounds(s, k, i + 1);
    }
}

/// Inserting keeps sorted entries sorted.
pub proof fn lemma_assoc_insert_sorted(s: Entries, k: Seq<char>, v: Seq<char>)
    requires
        keys_sorted(s),
    ensures
        keys_sorted(assoc_insert(s, k, v)),
{
    let t = assoc_insert(s, k, v);
    if has_key(s, k) {
        lemma_first_key_index_exists(s, k);
        let i = choose|i: int| is_first_key_index(s, k, i);
        assert forall|a: int, b: int| 0 <= a < b < t.len() implies key_lt(t[a].0, t[b].0) by {
            assert(key_lt(s[a].0, s[b].0));
        }
    } else {
        let p = insert_position(s, k, 0);
        lemma_insert_position_bounds(s, k, 0);
        assert forall|j: int| 0 <= j < p implies key_lt(#[trigger] s[j].0, k) by {
            lemma_key_lt(s[j].0, k, k);
            assert(s[j].0 != k);
        }
        assert forall|j: int| p <= j < s.len() implies key_lt(k, #[trigger] s[j].0) by {
            if j > p {
                assert(key_lt(s[p].0, s[j].0));
                lemma_key_lt(k, s[p].0, s[j].0);
            }
        }
        assert forall|a: int, b: int| 0 <= a < b < t.len() implies key_lt(t[a].0, t[b].0) by {
            let sa = if a < p { a } else { a - 1 };
            let sb = if b < p { b } else { b - 1 };
            if a != p && b != p {
                assert(t[a] == s[sa]);
                assert(t[b] == s[sb]);
                assert(key_lt(s[sa].0, s[sb].0));
            } else if a == p {
                assert(t[b] == s[sb]);
            } else {
                assert(t[a] == s[sa]);
            }
        }
    }
}

/// Inserting keeps the keys distinct, and the map of the entries changes as an
/// insertion into a map does.
pub proof fn lemma_assoc_insert(s: Entries, k: Seq<char>, v: Seq<char>)
    requires
        keys_distinct(s),
    ensures
        keys_distinct(assoc_insert(s, k, v)),
        entries_map(assoc_insert(s, k, v)) == entries_map(s).insert(k, v),
{
    let t = assoc_insert(s, k, v);
    if has_key(s, k) {
        lemma_first_key_index_exists(s, k);
        let i = choose|i: int| is_first_key_index(s, k, i);
        assert forall|a: int, b: int| 0 <= a < b < t.len() implies t[a].0 != t[b].0 by {
            assert(s[a].0 != s[b].0);
        }
        assert forall|key: Seq<char>| #[trigger]
            entries_map(t).dom().contains(key) == entries_map(s).insert(k, v).dom().contains(
                key,
            ) by {
            assert(entries_map(t).dom().contains(key) == has_key(t, key));
            assert(entries_map(s).insert(k, v).dom().contains(key) == (key == k || has_key(s, key)));
            if key == k {
                assert(t[i].0 == key);
            } else if has_key(s, key) {
                let w = choose|w: int| 0 <= w < s.len() && s[w].0 == key;
                assert(t[w].0 == key);
            }
            if has_key(t, key) {
                let w = choose|w: int| 0 <= w < t.len() && t[w].0 == key;
                if w != i {
                    assert(s[w].0 == key);
                }
            }
        }
        assert forall|key: Seq<char>| #[trigger] entries_map(t).dom().contains(key) implies
            entries_map(t)[key] == entries_map(s).insert(k, v)[key] by {
            lemma_first_key_index_exists(t, key);
            let ft = choose|f: int| is_first_key_index(t, key, f);
            if key == k {
                assert(ft == i);
            } else {
                assert(has_key(s, key)) by {
                    assert(s[ft].0 == key);
                }
                lemma_first_key_index_exists(s, key);
                let fs = choose|f: int| is_first_key_index(s, key, f);
                assert(fs == ft);
            }
        }
        assert(entries_map(t) =~= entries_map(s).insert(k, v));
    } else {
        let p = insert_position(s, k, 0);
        lemma_insert_position_bounds(s, k, 0);
        assert(t == s.insert(p, (k, v)));
        assert forall|a: int, b: int| 0 <= a < b < t.len() implies t[a].0 != t[b].0 by {
            let sa = if a < p { a } else { a - 1 };
            let sb = if b < p { b } else { b - 1 };
            if a != p && b != p {
                assert(t[a] == s[sa]);
                assert(t[b] == s[sb]);
            } else if a == p {
                assert(t[b] == s[sb]);
                assert(s[sb].0 != k);
            } else {
                assert(t[a] == s[sa]);
                assert(s[sa].0 != k);
            }
        }
        assert forall|key: Seq<char>| #[trigger]
            entries_map(t).dom().contains(key) == entries_map(s).insert(k, v).dom().contains(
                key,
            ) by {
            assert(entries_map(t).dom().contains(key) == has_key(t, key));
            assert(entries_map(s).insert(k, v).dom().contains(key) == (key == k || has_key(s, key)));
            if key == k {
                assert(t[p].0 == key);
            } else if has_key(s, key) {
                let w = choose|w: int| 0 <= w < s.len() && s[w].0 == key;
                let tw = if w < p { w } else { w + 1 };
                assert(t[tw] == s[w]);
            }
            if has_key(t, key) && key != k {
                let w = choose|w: int| 0 <= w < t.len() && t[w].0 == key;
                let sw = if w < p { w } else { w - 1 };
                assert(w != p);
                assert(t[w] == s[sw]);
            }
        }
        assert forall|key: Seq<char>| #[trigger] entries_map(t).dom().contains(key) implies
            entries_map(t)[key] == entries_map(s).insert(k, v)[key] by {
            lemma_first_key_index_exists(t, key);
            let ft = choose|f: int| is_first_key_index(t, key, f);
            if key == k {
                assert(ft == p) by {
                    if ft != p {
                        let sf = if ft < p { ft } else { ft - 1 };
                        assert(t[ft] == s[sf]);
                    }
                }
            } else {
                assert(ft != p);
                let sf = if ft < p { ft } else { ft - 1 };
                assert(t[ft] == s[sf]);
                lemma_first_key_index_exists(s, key);
                let fs = choose|f: int| is_first_key_index(s, key, f);
                assert(fs == sf) by {
                    if fs < sf {
                        let tf = if fs < p { fs } else { fs + 1 };
                        assert(t[tf] == s[fs]);
                    }
                    if sf < fs {
                        assert(s[sf].0 == key);
                    }
                }
            }
        }
        assert(entries_map(t) =~= entries_map(s).insert(k, v));
    }
}


/// `s` without the entry of `k`, when it has one.
pub open spec fn assoc_remove(s: Entries, k: Seq<char>) -> Entries {
    if has_key(s, k) {
        s.remove(choose|i: int| is_first_key_index(s, k, i))
    } else {
        s
    }
}

/// Removing keeps the keys distinct, and the map of the entries changes as a
/// removal from a map does.
pub proof fn lemma_assoc_remove(s: Entries, k: Seq<char>)
    requires
        keys_distinct(s),
    ensures
        keys_distinct(assoc_remove(s, k)),
        entries_map(assoc_remove(s, k)) == entries_map(s).remove(k),
{
    let t = assoc_remove(s, k);
    if has_key(s, k) {
        lemma_first_key_index_exists(s, k);
        let i = choose|i: int| is_first_key_index(s, k, i);
        assert forall|a: int, b: int| 0 <= a < b < t.len() implies t[a].0 != t[b].0 by {
            let sa = if a < i { a } else { a + 1 };
            let sb = if b < i { b } else { b + 1 };
            assert(t[a] == s[sa]);
            assert(t[b] == s[sb]);
        }
        assert forall|key: Seq<char>| #[trigger]
            entries_map(t).dom().contains(key) == entries_map(s).remove(k).dom().contains(key) by {
            if has_key(t, key) {
                let w = choose|w: int| 0 <= w < t.len() && t[w].0 == key;
                let sw = if w < i { w } else { w + 1 };
                assert(t[w] == s[sw]);
                assert(s[sw].0 == key);
                assert(sw != i);
                assert(key != k);
            }
            if key != k && has_key(s, key) {
                let w = choose|w: int| 0 <= w < s.len() && s[w].0 == key;
                assert(w != i);
                let tw = if w < i { w } else { w - 1 };
                assert(t[tw] == s[w]);
            }
        }
        assert forall|key: Seq<char>| #[trigger] entries_map(t).dom().contains(key) implies
            entries_map(t)[key] == entries_map(s).remove(k)[key] by {
            lemma_first_key_index_exists(t, key);
            let ft = choose|f: int| is_first_key_index(t, key, f);
            let sf = if ft < i { ft } else { ft + 1 };
            assert(t[ft] == s[sf]);
            lemma_first_key_index_exists(s, key);
            let fs = choose|f: int| is_first_key_index(s, key, f);
            assert(fs == sf) by {
                if fs != sf {
                    assert(s[fs].0 == s[sf].0);
                }
            }
        }
        assert(entries_map(t) =~= entries_map(s).remove(k));
    } else {
        assert(entries_map(t) =~= entries_map(s).remove(k));
    }
}

/// A map from strings to strings whose entries stay sorted by key.
pub struct StringMap {
    entries: Vec<(String, String)>,
}

impl StringMap {
    #[verifier::type_invariant]
    spec fn sorted(&self) -> bool {
        keys_sorted(self@)
    }
}

/// Whether `a` comes before `b` in the order of strings.
pub fn str_lt(a: &str, b: &str) -> (r: bool)
    ensures
        r == key_lt(a@, b@),
{
    let x = crate::text::str_chars(a);
    let y = crate::text::str_chars(b);
    let mut i: usize = 0;
    proof {
        assert(x@.skip(0) =~= x@);
        assert(y@.skip(0) =~= y@);
    }
    while i < x.len() && i < y.len()
        invariant
            x@ == a@,
            y@ == b@,
            i <= x@.len(),
            i <= y@.len(),
            key_lt(x@.skip(i as int), y@.skip(i as int)) == key_lt(a@, b@),
        decreases x@.len() - i,
    {
        proof {
            assert(x@.skip(i as int)[0] == x@[i as int]);
            assert(y@.skip(i as int)[0] == y@[i as int]);
        }
        if x[i] != y[i] {
            let r = x[i] < y[i];
            proof {
                assert(x@.skip(i as int).len() > 0 && y@.skip(i as int).len() > 0);
                assert(key_lt(x@.skip(i as int), y@.skip(i as int)) == ((x@[i as int] as int) < (
                y@[i as int] as int)));
            }
            return r;
        }
        proof {
            assert(x@.skip(i as int).drop_first() =~= x@.skip(i + 1));
            assert(y@.skip(i as int).drop_first() =~= y@.skip(i + 1));
        }
        i = i + 1;
    }
    proof {
        assert(x@.skip(i as int).len() == x@.len() - i);
        assert(y@.skip(i as int).len() == y@.len() - i);
    }
    i == x.len() && i < y.len()
}

/// The views of entries.
pub open spec fn entry_views(v: Seq<(String, String)>) -> Entries {
    v.map_values(|e: (String, String)| (e.0@, e.1@))
}

impl View for StringMap {
    type V = Entries;

    closed spec fn view(&self) -> Entries {
        entry_views(self.entries@)
    }
}

impl StringMap {
    /// The empty map.
    pub fn new() -> (m: Self)
        ensures
            m@ == Seq::<(Seq<char>, Seq<char>)>::empty(),
    {
        let m = StringMap { entries: Vec::new() };
        proof {
            assert(m@ =~= Seq::<(Seq<char>, Seq<char>)>::empty());
        }
        m
    }

    /// Whether the map has no entry.
    pub fn is_empty(&self) -> (r: bool)
        ensures
            r == (self@.len() == 0),
    {
        self.entries.len() == 0
    }

    /// How many entries the map has.
    pub fn len(&self) -> (r: usize)
        ensures
            r == self@.len(),
    {
        self.entries.len()
    }

    /// The entries, in order.
    pub fn entries(&self) -> (r: &Vec<(String, String)>)
        ensures
            r@.map_values(|e: (String, String)| (e.0@, e.1@)) == self@,
    {
        &self.entries
    }

    /// Sets the value of `key` to `value`: an entry of `key` takes the new
    /// value, else a new entry goes where its key sorts.
    pub fn insert(&mut self, key: String, value: String)
        ensures
            final(self)@ == assoc_insert(old(self)@, key@, value@),
    {
        proof {
            use_type_invariant(&*self);
        }
        let mut entries: Vec<(String, String)> = Vec::new();
        std::mem::swap(&mut entries, &mut self.entries);
        let ghost start = entry_views(entries@);
        assert(start == old(self)@);
        let n = entries.len();
        let mut i: usize = 0;
        while i < n
            invariant
                n == entries@.len(),
                entry_views(entries@) == old(self)@,
                keys_sorted(entry_views(entries@)),
                i <= n,
                forall|j: int| 0 <= j < i ==> #[trigger] key_lt(entry_views(entries@)[j].0, key@),
                insert_position(entry_views(entries@), key@, i as int) == insert_position(entry_views(entries@), key@, 0),
            decreases n - i,
        {
            proof {
                assert(entry_views(entries@)[i as int] == (entries@[i as int].0@, entries@[i as int].1@));
            }
            if crate::text::str_eq(entries[i].0.as_str(), key.as_str()) {
                proof {
                    assert(entry_views(entries@)[i as int].0 == key@);
                    assert(has_key(entry_views(entries@), key@));
                    lemma_first_key_index_exists(entry_views(entries@), key@);
                    let f = choose|f: int| is_first_key_index(entry_views(entries@), key@, f);
                    assert(f == i) by {
                        if f < i {
                            lemma_key_lt_total(key@, key@);
                        }
                    }
                    lemma_assoc_insert_sorted(entry_views(entries@), key@, value@);
                }
                let ghost before = entry_views(entries@);
                entries.set(i, (key, value));
                proof {
                    assert(entry_views(entries@) =~= assoc_insert(before, key@, value@));
                }
                self.entries = entries;
                return;
            }
            if str_lt(key.as_str(), entries[i].0.as_str()) {
                proof {
                    assert(!has_key(entry_views(entries@), key@)) by {
                        if has_key(entry_views(entries@), key@) {
                            let w = choose|w: int| 0 <= w < entry_views(entries@).len() && entry_views(entries@)[w].0 == key@;
                            if w < i {
                                lemma_key_lt_total(key@, key@);
                            } else if w == i {
                            } else {
                                assert(key_lt(entry_views(entries@)[i as int].0, entry_views(entries@)[w].0));
                                lemma_key_lt(key@, entry_views(entries@)[i as int].0, key@);
                                lemma_key_lt_total(key@, key@);
                            }
                        }
                    }
                    assert(insert_position(entry_views(entries@), key@, i as int) == i);
                    lemma_assoc_insert_sorted(entry_views(entries@), key@, value@);
                }
                let ghost before = entry_views(entries@);
                entries.insert(i, (key, value));
                proof {
                    assert(entry_views(entries@) =~= before.insert(i as int, (key@, value@)));
                }
                self.entries = entries;
                return;
            }
            proof {
                lemma_key_lt_total(entry_views(entries@)[i as int].0, key@);
            }
            i += 1;
        }
        proof {
            assert(!has_key(entry_views(entries@), key@)) by {
                if has_key(entry_views(entries@), key@) {
                    let w = choose|w: int| 0 <= w < entry_views(entries@).len() && entry_views(entries@)[w].0 == key@;
                    lemma_key_lt_total(key@, key@);
                }
            }
            lemma_assoc_insert_sorted(entry_views(entries@), key@, value@);
        }
        let ghost before = entry_views(entries@);
        entries.push((key, value));
        proof {
            assert(entry_views(entries@) =~= before.insert(n as int, (key@, value@)));
        }
        self.entries = entries;
    }

    /// The value of `key`, if the map has it.
    pub fn get(&self, key: &str) -> (r: Option<&String>)
        ensures
            match r {
                Some(v) => has_key(self@, key@) && v@ == entries_map(self@)[key@],
                None => !has_key(self@, key@),
            },
    {
        let n = self.entries.len();
        let mut i: usize = 0;
        while i < n
            invariant
                n == self.entries@.len(),
                i <= n,
                forall|j: int| 0 <= j < i ==> self@[j].0 != key@,
            decreases n - i,
        {
            if crate::text::str_eq(self.entries[i].0.as_str(), key) {
                proof {
                    assert(self@[i as int].0 == key@);
                    lemma_first_key_index_exists(self@, key@);
                    let f = choose|f: int| is_first_key_index(self@, key@, f);
                    assert(f == i);
                }
                return Some(&self.entries[i].1);
            }
            i += 1;
        }
        None
    }

    /// Removes the entry of `key`, if the map has one.
    pub fn remove(&mut self, key: &str)
        ensures
            final(self)@ == assoc_remove(old(self)@, key@),
    {
        let n = self.entries.len();
        let mut i: usize = 0;
        while i < n
            invariant
                n == self.entries@.len(),
                self@ == old(self)@,
                i <= n,
                forall|j: int| 0 <= j < i ==> self@[j].0 != key@,
            decreases n - i,
        {
            if crate::text::str_eq(self.entries[i].0.as_str(), key) {
                proof {
                    assert(self@[i as int].0 == key@);
                    lemma_first_key_index_exists(self@, key@);
                    let f = choose|f: int| is_first_key_index(self@, key@, f);
                    assert(f == i);
                }
                proof {
                    use_type_invariant(&*self);
                }
                let mut entries: Vec<(String, String)> = Vec::new();
                std::mem::swap(&mut entries, &mut self.entries);
                let ghost before = entry_views(entries@);
                let _ = entries.remove(i);
                proof {
                    assert(entry_views(entries@) =~= before.remove(i as int));
                    assert(entry_views(entries@) =~= assoc_remove(old(self)@, key@));
                    assert forall|a: int, b: int| 0 <= a < b < entry_views(entries@).len() implies key_lt(
                        entry_views(entries@)[a].0,
                        entry_views(entries@)[b].0,
                    ) by {
                        let sa = if a < i { a } else { a + 1 };
                        let sb = if b < i { b } else { b + 1 };
                        assert(key_lt(before[sa].0, before[sb].0));
                    }
                }
                self.entries = entries;
                return;
            }
            i += 1;
        }
        proof {
            assert(!has_key(old(self)@, key@));
        }
    }
}

} // verus!
