//! The named values that fill a template.

use vstd::prelude::*;

use crate::text::chars_of;
use crate::text::same_chars;

verus! {

/// No key occurs twice among `args`.
pub open spec fn distinct_keys(args: Seq<(Seq<char>, Seq<char>)>) -> bool {
    forall|i: int, j: int| 0 <= i < j < args.len() ==> args[i].0 != args[j].0
}

/// Position of `key` among `args`, or `args.len()` when it is absent.
pub open spec fn key_index(args: Seq<(Seq<char>, Seq<char>)>, key: Seq<char>) -> int
    decreases args.len(),
{
    if args.len() == 0 {
        0
    } else if args[0].0 == key {
        0
    } else {
        1 + key_index(args.drop_first(), key)
    }
}

/// The named values that a page's template is filled with: a mapping from
/// key to value that remembers the order in which its keys arrived.
#[derive(Debug)]
pub struct HtmlArgs {
    entries: Vec<(String, String)>,
}

impl View for HtmlArgs {
    type V = Seq<(Seq<char>, Seq<char>)>;

    closed spec fn view(&self) -> Seq<(Seq<char>, Seq<char>)> {
        Seq::new(self.entries@.len(), |i: int| (self.entries@[i].0@, self.entries@[i].1@))
    }
}

impl HtmlArgs {
    /// A mapping holds no key twice. `new` and `clone` give such a mapping,
    /// and `insert` keeps it so.
    pub open spec fn wf(&self) -> bool {
        distinct_keys(self@)
    }

    /// The empty mapping.
    pub fn new() -> (args: Self)
        ensures
            args@ == Seq::<(Seq<char>, Seq<char>)>::empty(),
            args.wf(),
    {
        let args = HtmlArgs { entries: Vec::new() };
        assert(args@ =~= Seq::<(Seq<char>, Seq<char>)>::empty());
        args
    }

    /// The number of keys.
    pub fn len(&self) -> (n: usize)
        ensures
            n == self@.len(),
    {
        self.entries.len()
    }

    /// The key at position `i`.
    pub fn key_at(&self, i: usize) -> (key: &str)
        requires
            i < self@.len(),
        ensures
            key@ == self@[i as int].0,
    {
        self.entries[i].0.as_str()
    }

    /// The value at position `i`.
    pub fn value_at(&self, i: usize) -> (value: &str)
        requires
            i < self@.len(),
        ensures
            value@ == self@[i as int].1,
    {
        self.entries[i].1.as_str()
    }

    /// Whether entry `i` is stored under `key`.
    fn key_is(&self, i: usize, key: &Vec<char>) -> (r: bool)
        requires
            i < self@.len(),
        ensures
            r == (self@[i as int].0 == key@),
    {
        let candidate: Vec<char> = chars_of(self.entries[i].0.as_str());
        same_chars(&candidate, key)
    }

    /// Position of `key`, or `len()` when it is absent.
    fn position(&self, key: &Vec<char>) -> (k: usize)
        ensures
            k == key_index(self@, key@),
            k <= self@.len(),
            forall|j: int| 0 <= j < k ==> self@[j].0 != key@,
            k < self@.len() ==> self@[k as int].0 == key@,
    {
        let mut i: usize = 0;
        while i < self.entries.len() && !self.key_is(i, key)
            invariant
                i <= self.entries.len(),
                forall|j: int| 0 <= j < i ==> self@[j].0 != key@,
            decreases self.entries.len() - i,
        {
            i += 1;
        }
        proof {
            lemma_key_index_is(self@, key@, i as int);
        }
        i
    }

    /// The value stored under `key`.
    pub fn get(&self, key: &str) -> (value: Option<&String>)
        ensures
            match value {
                Some(v) => key_index(self@, key@) < self@.len() && v@ == self@[key_index(
                    self@,
                    key@,
                )].1,
                None => key_index(self@, key@) == self@.len(),
            },
    {
        let wanted: Vec<char> = chars_of(key);
        let k: usize = self.position(&wanted);
        if k < self.entries.len() {
            Some(&self.entries[k].1)
        } else {
            None
        }
    }

    /// Stores `value` under `key`. A key that is already present keeps its
    /// place and hands back the value it had; a new key goes to the end.
    pub fn insert(&mut self, key: String, value: String) -> (previous: Option<String>)
        requires
            old(self).wf(),
        ensures
            final(self).wf(),
            match previous {
                Some(p) => {
                    let k = key_index(old(self)@, key@);
                    &&& k < old(self)@.len()
                    &&& p@ == old(self)@[k].1
                    &&& final(self)@ == old(self)@.update(k, (key@, value@))
                },
                None => {
                    &&& key_index(old(self)@, key@) == old(self)@.len()
                    &&& final(self)@ == old(self)@.push((key@, value@))
                },
            },
    {
        let wanted: Vec<char> = chars_of(key.as_str());
        let k: usize = self.position(&wanted);
        let ghost before = self@;
        if k < self.entries.len() {
            let mut entry: (String, String) = (key, value);
            let slot: &mut (String, String) = &mut self.entries[k];
            std::mem::swap(slot, &mut entry);
            proof {
                assert(self@ =~= before.update(k as int, (key@, value@)));
            }
            Some(entry.1)
        } else {
            self.entries.push((key, value));
            proof {
                assert(self@ =~= before.push((key@, value@)));
            }
            None
        }
    }
}

/// A position that `key` first occupies (or the length, if it is absent) is
/// what `key_index` returns.
pub proof fn lemma_key_index_is(args: Seq<(Seq<char>, Seq<char>)>, key: Seq<char>, k: int)
    requires
        0 <= k <= args.len(),
        forall|j: int| 0 <= j < k ==> args[j].0 != key,
        k < args.len() ==> args[k].0 == key,
    ensures
        key_index(args, key) == k,
    decreases args.len(),
{
    if args.len() > 0 && k > 0 {
        let t = args.drop_first();
        assert forall|j: int| 0 <= j < k - 1 implies t[j].0 != key by {
            assert(t[j] == args[j + 1]);
        }
        lemma_key_index_is(t, key, k - 1);
    }
}

/// `key_index` stays within `args`, skips only other keys and, inside `args`,
/// stands on `key`.
pub proof fn lemma_key_index(args: Seq<(Seq<char>, Seq<char>)>, key: Seq<char>)
    ensures
        0 <= key_index(args, key) <= args.len(),
        forall|j: int| 0 <= j < key_index(args, key) ==> args[j].0 != key,
        key_index(args, key) < args.len() ==> args[key_index(args, key)].0 == key,
    decreases args.len(),
{
    if args.len() > 0 && args[0].0 != key {
        let t = args.drop_first();
        lemma_key_index(t, key);
        assert forall|j: int| 0 <= j < key_index(args, key) implies args[j].0 != key by {
            if j > 0 {
                assert(args[j] == t[j - 1]);
            }
        }
    }
}

/// What `insert` makes of `args`: the value of a key that is there is
/// replaced where it stands, and a new key goes to the end.
pub open spec fn inserted(
    args: Seq<(Seq<char>, Seq<char>)>,
    key: Seq<char>,
    value: Seq<char>,
) -> Seq<(Seq<char>, Seq<char>)> {
    if key_index(args, key) < args.len() {
        args.update(key_index(args, key), (key, value))
    } else {
        args.push((key, value))
    }
}

/// After a key was stored, it is found, with the value that was stored; and
/// every other key is found as before, with the value it had.
pub proof fn lemma_insert_then_get(
    args: Seq<(Seq<char>, Seq<char>)>,
    key: Seq<char>,
    value: Seq<char>,
    other: Seq<char>,
)
    requires
        other != key,
    ensures
        key_index(inserted(args, key, value), key) < inserted(args, key, value).len(),
        inserted(args, key, value)[key_index(inserted(args, key, value), key)].1 == value,
        key_index(args, other) < args.len() ==> key_index(inserted(args, key, value), other)
            == key_index(args, other) && inserted(args, key, value)[key_index(args, other)].1
            == args[key_index(args, other)].1,
        key_index(args, other) == args.len() ==> key_index(inserted(args, key, value), other)
            == inserted(args, key, value).len(),
{
    let after = inserted(args, key, value);
    lemma_key_index(args, key);
    lemma_key_index(args, other);
    let k = key_index(args, key);
    let o = key_index(args, other);
    lemma_key_index_is(after, key, k);
    if o < args.len() {
        lemma_key_index_is(after, other, o);
    } else {
        lemma_key_index_is(after, other, after.len() as int);
    }
}

impl Clone for HtmlArgs {
    fn clone(&self) -> (copy: Self)
        ensures
            copy@ == self@,
    {
        let mut entries: Vec<(String, String)> = Vec::new();
        let mut i: usize = 0;
        while i < self.entries.len()
            invariant
                i <= self.entries.len(),
                entries.len() == i,
                forall|j: int|
                    0 <= j < i ==> entries@[j].0@ == self.entries@[j].0@ && entries@[j].1@
                        == self.entries@[j].1@,
            decreases self.entries.len() - i,
        {
            entries.push((self.entries[i].0.clone(), self.entries[i].1.clone()));
            i += 1;
        }
        let ghost copied = Seq::new(entries@.len(), |i: int| (entries@[i].0@, entries@[i].1@));
        assert(copied =~= self@);
        HtmlArgs { entries }
    }
}

} // verus!
