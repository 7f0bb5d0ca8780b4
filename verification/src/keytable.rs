//! The table of tracked keywords.
//!
//! Maps each tracked keyword to a stable dense index — its position in the
//! configured key list — and is fixed at construction. If the same keyword is
//! configured twice, the later entry wins, as with insertion into a map keyed
//! by name.

use vstd::prelude::*;

verus! {

/// The index a lookup of `name` yields: the last position of `keys` holding
/// `name`, or `-1` when no position does.
pub open spec fn last_match(keys: Seq<Seq<char>>, name: Seq<char>) -> int
    decreases keys.len(),
{
    if keys.len() == 0 {
        -1
    } else if keys.last() == name {
        keys.len() - 1
    } else {
        last_match(keys.drop_last(), name)
    }
}

/// What `last_match` returns: either `-1` and no position matches, or the
/// greatest matching position.
pub proof fn lemma_last_match(keys: Seq<Seq<char>>, name: Seq<char>)
    ensures
        last_match(keys, name) == -1 || 0 <= last_match(keys, name) < keys.len(),
        last_match(keys, name) == -1 ==> forall|j: int| 0 <= j < keys.len() ==> keys[j] != name,
        last_match(keys, name) >= 0 ==> keys[last_match(keys, name)] == name,
        forall|j: int| last_match(keys, name) < j < keys.len() ==> keys[j] != name,
    decreases keys.len(),
{
    if keys.len() > 0 && keys.last() != name {
        lemma_last_match(keys.drop_last(), name);
        assert forall|j: int| 0 <= j < keys.len() - 1 implies keys.drop_last()[j] == keys[j] by {}
    }
}

/// Bidirectional mapping from tracked keyword to dense index, fixed at
/// construction. The view is the sequence of keyword character sequences in
/// configuration order.
pub struct KeyTable {
    /// The tracked keywords, in configuration order.
    pub names: Vec<String>,
}

impl View for KeyTable {
    type V = Seq<Seq<char>>;

    open spec fn view(&self) -> Seq<Seq<char>> {
        self.names@.map_values(|s: String| s@)
    }
}

impl KeyTable {
    /// Builds the table from the configured key list, in order.
    pub fn new(keys: &Vec<String>) -> (t: KeyTable)
        ensures
            t@ == keys@.map_values(|s: String| s@),
            t@.len() == keys@.len(),
    {
        let mut names: Vec<String> = Vec::new();
        let mut i: usize = 0;
        while i < keys.len()
            invariant
                i <= keys.len(),
                names@ == keys@.take(i as int),
            decreases keys.len() - i,
        {
            names.push(keys[i].clone());
            proof {
                assert(keys@.take(i + 1) =~= keys@.take(i as int).push(keys@[i as int]));
            }
            i += 1;
        }
        proof {
            assert(keys@.take(keys@.len() as int) =~= keys@);
        }
        KeyTable { names }
    }

    /// How many keywords are tracked.
    pub fn len(&self) -> (n: usize)
        ensures
            n == self@.len(),
    {
        self.names.len()
    }

    /// The dense index of `name`: the last configured position holding it,
    /// or `None` when `name` is not tracked.
    pub fn index_of(&self, name: &str) -> (r: Option<usize>)
        ensures
            match r {
                Some(i) => last_match(self@, name@) == i as int,
                None => last_match(self@, name@) == -1,
            },
    {
        proof {
            lemma_last_match(self@, name@);
        }
        let target = name.to_owned();
        let mut i = self.names.len();
        while i > 0
            invariant
                i <= self.names.len(),
                target@ == name@,
                forall|j: int| i <= j < self@.len() ==> self@[j] != name@,
                last_match(self@, name@) == -1 || 0 <= last_match(self@, name@) < self@.len(),
                last_match(self@, name@) >= 0 ==> self@[last_match(self@, name@)] == name@,
                forall|j: int| last_match(self@, name@) < j < self@.len() ==> self@[j] != name@,
            decreases i,
        {
            i = i - 1;
            if self.names[i] == target {
                proof {
                    let lm = last_match(self@, name@);
                    assert(self@[i as int] == name@);
                    if lm < i as int {
                        assert(self@[i as int] != name@);
                    }
                    if lm > i as int {
                        assert(self@[lm] != name@);
                    }
                    assert(lm == i as int);
                }
                return Some(i);
            }
        }
        None
    }

    /// A copy of the keyword at index `i`.
    pub fn name_at(&self, i: usize) -> (s: String)
        requires
            i < self@.len(),
        ensures
            s@ == self@[i as int],
    {
        self.names[i].clone()
    }
}

} // verus!
