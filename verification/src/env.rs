//! Operations on one scope of bindings.

use crate::sexp::{entries_view, Env, EnvView, SExp};
use vstd::prelude::*;

verus! {

/// No entry of `entries` from index `from` on carries the name `key`.
pub open spec fn absent_from<F>(entries: Seq<(String, SExp<F>)>, key: Seq<char>, from: int) -> bool {
    forall|j: int| from <= j < entries.len() ==> (#[trigger] entries[j]).0@ != key
}

/// Entries that do not carry a name bind nothing to it.
pub proof fn lemma_absent_unbound<F>(entries: Seq<(String, SExp<F>)>, key: Seq<char>)
    requires
        absent_from(entries, key, 0),
    ensures
        !entries_view(entries).contains_key(key),
    decreases entries.len(),
{
    if entries.len() > 0 {
        let front = entries.drop_last();
        assert forall|j: int| 0 <= j < front.len() implies (#[trigger] front[j]).0@ != key by {
            assert(front[j] == entries[j]);
        }
        lemma_absent_unbound(front, key);
    }
}

/// The last entry that carries a name decides what the name is bound to.
pub proof fn lemma_last_match_bound<F>(entries: Seq<(String, SExp<F>)>, key: Seq<char>, at: int)
    requires
        0 <= at < entries.len(),
        entries[at].0@ == key,
        absent_from(entries, key, at + 1),
    ensures
        entries_view(entries).contains_key(key),
        entries_view(entries)[key] == entries[at].1@,
    decreases entries.len(),
{
    if at < entries.len() - 1 {
        let front = entries.drop_last();
        assert(front[at] == entries[at]);
        assert forall|j: int| at + 1 <= j < front.len() implies (#[trigger] front[j]).0@ != key by {
            assert(front[j] == entries[j]);
        }
        lemma_last_match_bound(front, key, at);
        assert(entries.last().0@ != key);
    }
}

/// Replacing the last entry that carries a name rebinds that name and
/// nothing else.
pub proof fn lemma_replace_last_match<F>(
    entries: Seq<(String, SExp<F>)>,
    at: int,
    name: String,
    value: SExp<F>,
)
    requires
        0 <= at < entries.len(),
        entries[at].0@ == name@,
        absent_from(entries, name@, at + 1),
    ensures
        entries_view(entries.update(at, (name, value))) == entries_view(entries).insert(
            name@,
            value@,
        ),
    decreases entries.len(),
{
    let changed = entries.update(at, (name, value));
    let front = entries.drop_last();
    if at == entries.len() - 1 {
        assert(changed.drop_last() =~= front);
        assert(entries_view(changed) =~= entries_view(entries).insert(name@, value@));
    } else {
        assert(front[at] == entries[at]);
        assert forall|j: int| at + 1 <= j < front.len() implies (#[trigger] front[j]).0@ != name@ by {
            assert(front[j] == entries[j]);
        }
        lemma_replace_last_match(front, at, name, value);
        assert(changed.drop_last() =~= front.update(at, (name, value)));
        assert(changed.last() == entries.last());
        assert(entries.last().0@ != name@);
        assert(entries_view(changed) =~= entries_view(entries).insert(name@, value@));
    }
}

/// No two of the entries carry the same name.
pub open spec fn distinct_names<F>(entries: Seq<(String, SExp<F>)>) -> bool {
    forall|i: int, j: int| 0 <= i < j < entries.len() ==> entries[i].0@ != entries[j].0@
}

/// Entries bind finitely many names: no more than there are entries, and
/// exactly as many where their names are distinct.
pub proof fn lemma_count<F>(entries: Seq<(String, SExp<F>)>)
    ensures
        entries_view(entries).dom().finite(),
        entries_view(entries).dom().len() <= entries.len(),
        distinct_names(entries) ==> entries_view(entries).dom().len() == entries.len(),
    decreases entries.len(),
{
    if entries.len() > 0 {
        let front = entries.drop_last();
        let key = entries.last().0@;
        lemma_count(front);
        assert(entries_view(entries).dom() =~= entries_view(front).dom().insert(key));
        if distinct_names(entries) {
            assert forall|i: int, j: int| 0 <= i < j < front.len() implies front[i].0@
                != front[j].0@ by {
                assert(front[i] == entries[i] && front[j] == entries[j]);
            }
            assert forall|j: int| 0 <= j < front.len() implies (#[trigger] front[j]).0@ != key by {
                assert(front[j] == entries[j]);
            }
            lemma_absent_unbound(front, key);
        }
    } else {
        assert(entries_view(entries).dom() =~= Set::<Seq<char>>::empty());
    }
}

impl<F> Env<F> {
    /// No name is held twice.
    #[verifier::type_invariant]
    pub open(crate) spec fn distinct(self) -> bool {
        distinct_names(self.entries@)
    }

    /// A scope binds finitely many names.
    pub proof fn lemma_finite(&self)
        ensures
            self@.dom().finite(),
    {
        lemma_count(self.entries@);
    }

    /// A scope that binds nothing.
    pub fn new() -> (env: Self)
        ensures
            env@ == EnvView::<F>::empty(),
    {
        Env { entries: Vec::new() }
    }

    /// The number of names bound.
    pub fn len(&self) -> (count: usize)
        ensures
            self@.dom().finite(),
            count == self@.dom().len(),
    {
        proof {
            use_type_invariant(self);
            lemma_count(self.entries@);
        }
        self.entries.len()
    }

    /// The index of the entry that decides `key`, if any entry carries it.
    fn position(entries: &Vec<(String, SExp<F>)>, key: &String) -> (at: Option<usize>)
        ensures
            match at {
                Some(i) => i < entries@.len() && entries@[i as int].0@ == key@ && absent_from(
                    entries@,
                    key@,
                    i + 1,
                ),
                None => absent_from(entries@, key@, 0),
            },
    {
        let mut i: usize = entries.len();
        while i > 0
            invariant
                i <= entries@.len(),
                absent_from(entries@, key@, i as int),
            decreases i,
        {
            i -= 1;
            if entries[i].0 == *key {
                return Some(i);
            }
        }
        None
    }

    /// Whether `key` is bound.
    pub fn contains_key(&self, key: &str) -> (found: bool)
        ensures
            found == self@.contains_key(key@),
    {
        let name = key.to_owned();
        match Self::position(&self.entries, &name) {
            Some(i) => {
                proof {
                    lemma_last_match_bound(self.entries@, key@, i as int);
                }
                true
            },
            None => {
                proof {
                    lemma_absent_unbound(self.entries@, key@);
                }
                false
            },
        }
    }

    /// The value that `key` is bound to.
    pub fn get(&self, key: &str) -> (value: Option<&SExp<F>>)
        ensures
            match value {
                Some(v) => self@.contains_key(key@) && v@ == self@[key@],
                None => !self@.contains_key(key@),
            },
    {
        let name = key.to_owned();
        match Self::position(&self.entries, &name) {
            Some(i) => {
                proof {
                    lemma_last_match_bound(self.entries@, key@, i as int);
                }
                Some(&self.entries[i].1)
            },
            None => {
                proof {
                    lemma_absent_unbound(self.entries@, key@);
                }
                None
            },
        }
    }

    /// Binds `key` to `value`, in place of what it was bound to before.
    pub fn insert(&mut self, key: String, value: SExp<F>)
        ensures
            final(self)@ == old(self)@.insert(key@, value@),
    {
        proof {
            use_type_invariant(&*self);
        }
        let mut entries: Vec<(String, SExp<F>)> = Vec::new();
        core::mem::swap(&mut self.entries, &mut entries);
        let ghost before = entries@;
        match Self::position(&entries, &key) {
            Some(i) => {
                proof {
                    lemma_replace_last_match(entries@, i as int, key, value);
                }
                entries[i] = (key, value);
                proof {
                    assert forall|a: int, b: int| 0 <= a < b < entries@.len() implies entries@[a].0@
                        != entries@[b].0@ by {
                        assert(entries@[a].0@ == before[a].0@);
                        assert(entries@[b].0@ == before[b].0@);
                    }
                }
            },
            None => {
                proof {
                    assert(entries@.push((key, value)).drop_last() =~= entries@);
                }
                entries.push((key, value));
            },
        }
        core::mem::swap(&mut self.entries, &mut entries);
    }

    /// Whether nothing is bound.
    pub fn is_empty(&self) -> (empty: bool)
        ensures
            empty == (self@ == EnvView::<F>::empty()),
    {
        let empty = self.entries.len() == 0;
        proof {
            if !empty {
                let last = self.entries@.last();
                assert(self@.contains_key(last.0@));
                assert(!EnvView::<F>::empty().contains_key(last.0@));
            }
        }
        empty
    }
}

} // verus!
