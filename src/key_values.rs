use vstd::prelude::*;

verus! {

/// The views of a sequence of string pairs.
pub open spec fn pair_views(s: Seq<(String, String)>) -> Seq<(Seq<char>, Seq<char>)> {
    s.map_values(|p: (String, String)| (p.0@, p.1@))
}

/// No two entries share a key.
pub open spec fn keys_unique(s: Seq<(Seq<char>, Seq<char>)>) -> bool {
    forall|i: int, j: int| 0 <= i < j < s.len() ==> s[i].0 != s[j].0
}

/// Where the entry of `key` stands in `s`, or -1 when there is none (the last
/// such entry, should there be several).
pub open spec fn key_position(s: Seq<(Seq<char>, Seq<char>)>, key: Seq<char>) -> int
    decreases s.len(),
{
    if s.len() == 0 {
        -1
    } else if s.last().0 == key {
        s.len() - 1
    } else {
        key_position(s.drop_last(), key)
    }
}

/// `s` with `key` mapped to `value`: the entry of that key is replaced where it
/// stands, or a new entry is appended.
pub open spec fn set_entry(s: Seq<(Seq<char>, Seq<char>)>, key: Seq<char>, value: Seq<char>) -> Seq<
    (Seq<char>, Seq<char>),
> {
    let i = key_position(s, key);
    if i < 0 {
        s.push((key, value))
    } else {
        s.update(i, (key, value))
    }
}

proof fn lemma_key_position(s: Seq<(Seq<char>, Seq<char>)>, key: Seq<char>)
    ensures
        -1 <= key_position(s, key) < s.len(),
        key_position(s, key) >= 0 ==> s[key_position(s, key)].0 == key,
        forall|j: int| key_position(s, key) < j < s.len() ==> s[j].0 != key,
    decreases s.len(),
{
    if s.len() > 0 && s.last().0 != key {
        lemma_key_position(s.drop_last(), key);
        assert forall|j: int| key_position(s, key) < j < s.len() implies s[j].0 != key by {
            if j < s.len() - 1 {
                assert(s[j] == s.drop_last()[j]);
            }
        }
    }
}

/// Setting an entry keeps the keys unique.
pub proof fn lemma_set_entry_keeps_keys_unique(
    s: Seq<(Seq<char>, Seq<char>)>,
    key: Seq<char>,
    value: Seq<char>,
)
    requires
        keys_unique(s),
    ensures
        keys_unique(set_entry(s, key, value)),
{
    lemma_key_position(s, key);
    let t = set_entry(s, key, value);
    assert forall|i: int, j: int| 0 <= i < j < t.len() implies t[i].0 != t[j].0 by {
        if key_position(s, key) < 0 && j == s.len() {
            assert(s[i].0 != key);
        }
    }
}

/// A mapping from string keys to string values that keeps its entries in the
/// order in which their keys were first set.
#[derive(Debug, Clone)]
pub struct KeyValues {
    entries: Vec<(String, String)>,
}

impl View for KeyValues {
    type V = Seq<(Seq<char>, Seq<char>)>;

    closed spec fn view(&self) -> Seq<(Seq<char>, Seq<char>)> {
        pair_views(self.entries@)
    }
}

impl KeyValues {
    /// No two entries share a key: what every operation here keeps.
    pub open spec fn wf(&self) -> bool {
        keys_unique(self@)
    }

    /// An empty mapping.
    pub fn new() -> (r: KeyValues)
        ensures
            r.wf(),
            r@ == Seq::<(Seq<char>, Seq<char>)>::empty(),
    {
        let r = KeyValues { entries: Vec::new() };
        assert(r@ =~= Seq::<(Seq<char>, Seq<char>)>::empty());
        r
    }

    /// Maps `key` to `value`, replacing the value that `key` had.
    pub fn insert(&mut self, key: String, value: String)
        requires
            old(self).wf(),
        ensures
            final(self).wf(),
            final(self)@ == set_entry(old(self)@, key@, value@),
    {
        proof {
            lemma_set_entry_keeps_keys_unique(self@, key@, value@);
        }
        let ghost s = self@;
        proof {
            lemma_key_position(s, key@);
        }
        let n = self.entries.len();
        let mut i: usize = n;
        while i > 0 && !(self.entries[i - 1].0 == key)
            invariant
                i <= n == self.entries@.len(),
                s == pair_views(self.entries@),
                forall|j: int| i <= j < n ==> s[j].0 != key@,
            decreases i,
        {
            i = i - 1;
        }
        let ghost kv = (key@, value@);
        if i > 0 {
            assert(s[i - 1].0 == key@);
            assert(key_position(s, key@) == i - 1);
            self.entries[i - 1] = (key, value);
            assert(pair_views(self.entries@) =~= s.update(i - 1, kv));
        } else {
            assert(key_position(s, key@) < 0);
            self.entries.push((key, value));
            assert(pair_views(self.entries@) =~= s.push(kv));
        }
    }

    /// The mapping built by setting each pair in turn, so that of two pairs with
    /// one key the later value stays.
    pub fn from_pairs(pairs: Vec<(String, String)>) -> (r: KeyValues)
        ensures
            r.wf(),
            r@ == set_all(Seq::empty(), pair_views(pairs@)),
    {
        let mut r = KeyValues::new();
        let ghost all = pair_views(pairs@);
        for p in it: pairs.into_iter()
            invariant
                pair_views(it.seq()) == all,
                r.wf(),
                r@ == set_all(Seq::empty(), all.take(it.index() as int)),
        {
            let ghost done = all.take(it.index() as int);
            assert(all.take(it.index() + 1).drop_last() =~= done);
            r.insert(p.0, p.1);
        }
        assert(all.take(all.len() as int) =~= all);
        r
    }

    /// The number of entries.
    pub fn len(&self) -> (r: usize)
        ensures
            r == self@.len(),
    {
        self.entries.len()
    }

    /// The entries, in order.
    pub fn entries(&self) -> (r: &Vec<(String, String)>)
        ensures
            pair_views(r@) == self@,
    {
        &self.entries
    }
}

/// `s` with each of `pairs` set in turn.
pub open spec fn set_all(s: Seq<(Seq<char>, Seq<char>)>, pairs: Seq<(Seq<char>, Seq<char>)>) -> Seq<
    (Seq<char>, Seq<char>),
>
    decreases pairs.len(),
{
    if pairs.len() == 0 {
        s
    } else {
        set_entry(set_all(s, pairs.drop_last()), pairs.last().0, pairs.last().1)
    }
}

impl Default for KeyValues {
    fn default() -> (r: KeyValues)
        ensures
            r.wf(),
            r@ == Seq::<(Seq<char>, Seq<char>)>::empty(),
    {
        KeyValues::new()
    }
}

} // verus!
