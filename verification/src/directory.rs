//! The user directory: the names that are taken right now.
//!
//! One directory is shared by all sessions, behind a lock that the caller
//! holds for the length of one call. A name is in it from the moment a
//! session has claimed it until that session has gone. No name is in it
//! twice: claiming tests and inserts in one step.

use vstd::prelude::*;
use vstd::string::StringExecFns;
use crate::command::same_text;

verus! {

/// `names` without `name`. Names that occur once at most lose nothing else.
pub open spec fn without(names: Seq<Seq<char>>, name: Seq<char>) -> Seq<Seq<char>> {
    if names.contains(name) {
        names.remove(names.index_of(name))
    } else {
        names
    }
}

/// The set of names in use, in the order in which they were claimed.
pub struct UserDirectory {
    names: Vec<String>,
}

impl View for UserDirectory {
    type V = Seq<Seq<char>>;

    closed spec fn view(&self) -> Seq<Seq<char>> {
        self.names.deep_view()
    }
}

impl UserDirectory {
    /// What every directory satisfies: no name occurs twice.
    #[verifier::type_invariant]
    closed spec fn distinct(&self) -> bool {
        self.names.deep_view().no_duplicates()
    }

    /// An empty directory.
    pub fn new() -> (directory: Self)
        ensures
            directory@ == Seq::<Seq<char>>::empty(),
    {
        let names: Vec<String> = Vec::new();
        assert(names.deep_view() == Seq::<Seq<char>>::empty());
        UserDirectory { names }
    }

    /// Takes the names out, to put them back changed.
    fn take_names(&mut self) -> (names: Vec<String>)
        ensures
            names == old(self).names,
    {
        let mut names: Vec<String> = Vec::new();
        assert(names.deep_view() =~= Seq::<Seq<char>>::empty());
        std::mem::swap(&mut names, &mut self.names);
        names
    }

    /// The position of `name`, if it is taken.
    fn position(&self, name: &str) -> (found: Option<usize>)
        ensures
            match found {
                Some(i) => i < self@.len() && self@[i as int] == name@,
                None => !self@.contains(name@),
            },
    {
        let mut i: usize = 0;
        while i < self.names.len()
            invariant
                i <= self.names.len(),
                forall|j: int| 0 <= j < i ==> self.names.deep_view()[j] != name@,
            decreases self.names.len() - i,
        {
            if same_text(self.names[i].as_str(), name) {
                return Some(i);
            }
            i = i + 1;
        }
        None
    }

    /// Whether `name` is taken.
    pub fn contains(&self, name: &str) -> (taken: bool)
        ensures
            taken == self@.contains(name@),
    {
        self.position(name).is_some()
    }

    /// Claims `name`: tests whether it is free and, if so, enters it, in one
    /// step. Returns whether the caller now holds the name.
    pub fn try_register(&mut self, name: &str) -> (registered: bool)
        ensures
            registered == !old(self)@.contains(name@),
            final(self)@ == if registered {
                old(self)@.push(name@)
            } else {
                old(self)@
            },
            old(self)@.no_duplicates(),
            final(self)@.no_duplicates(),
    {
        proof {
            use_type_invariant(&*self);
        }
        match self.position(name) {
            Some(_) => false,
            None => {
                let ghost before = self.names.deep_view();
                let mut names = self.take_names();
                names.push(String::from_str(name));
                assert(names.deep_view() =~= before.push(name@));
                self.names = names;
                true
            },
        }
    }

    /// Gives `name` up. Returns whether it was taken.
    pub fn unregister(&mut self, name: &str) -> (removed: bool)
        ensures
            removed == old(self)@.contains(name@),
            final(self)@ == without(old(self)@, name@),
            old(self)@.no_duplicates(),
            final(self)@.no_duplicates(),
            !final(self)@.contains(name@),
    {
        proof {
            use_type_invariant(&*self);
        }
        let ghost before = self.names.deep_view();
        match self.position(name) {
            Some(i) => {
                let mut names = self.take_names();
                names.remove(i);
                proof {
                    let k = before.index_of(name@);
                    assert(before[i as int] == name@);
                    assert(k == i);
                    assert(names.deep_view() =~= before.remove(i as int));
                    lemma_without(before, name@);
                }
                self.names = names;
                true
            },
            None => {
                false
            },
        }
    }

    /// The names that are taken, in the order in which they were claimed.
    /// No name is among them twice.
    pub fn snapshot(&self) -> (names: Vec<String>)
        ensures
            names.deep_view() == self@,
            self@.no_duplicates(),
    {
        proof {
            use_type_invariant(self);
        }
        let mut names: Vec<String> = Vec::new();
        let mut i: usize = 0;
        while i < self.names.len()
            invariant
                i <= self.names.len(),
                names.deep_view() == self.names.deep_view().take(i as int),
            decreases self.names.len() - i,
        {
            let ghost copied = names.deep_view();
            let name = self.names[i].clone();
            names.push(name);
            assert(names.deep_view() =~= copied.push(self.names[i as int]@));
            assert(self.names.deep_view().take(i + 1) =~= copied.push(self.names[i as int]@));
            i = i + 1;
        }
        assert(self.names.deep_view().take(self.names.len() as int) == self.names.deep_view());
        names
    }

    /// Whether no name is taken.
    pub fn is_empty(&self) -> (empty: bool)
        ensures
            empty == (self@.len() == 0),
    {
        self.names.len() == 0
    }

    /// How many names are taken.
    pub fn count(&self) -> (count: usize)
        ensures
            count == self@.len(),
    {
        self.names.len()
    }
}

/// Taking a name out of distinct names removes that name and no other, and
/// leaves the rest distinct.
pub proof fn lemma_without(names: Seq<Seq<char>>, name: Seq<char>)
    requires
        names.no_duplicates(),
    ensures
        without(names, name).no_duplicates(),
        !without(names, name).contains(name),
        forall|other: Seq<char>|
            other != name ==> (#[trigger] without(names, name).contains(other)
                <==> names.contains(other)),
        names.contains(name) ==> without(names, name).len() + 1 == names.len(),
        !names.contains(name) ==> without(names, name) == names,
{
    if names.contains(name) {
        let k = names.index_of(name);
        let rest = names.remove(k);
        assert forall|i: int, j: int|
            0 <= i < rest.len() && 0 <= j < rest.len() && i != j implies rest[i] != rest[j] by {
            let si = if i < k { i } else { i + 1 };
            let sj = if j < k { j } else { j + 1 };
            assert(rest[i] == names[si]);
            assert(rest[j] == names[sj]);
        }
        assert forall|i: int| 0 <= i < rest.len() implies rest[i] != name by {
            let si = if i < k { i } else { i + 1 };
            assert(rest[i] == names[si]);
        }
        assert forall|other: Seq<char>| other != name implies (#[trigger] rest.contains(other)
            <==> names.contains(other)) by {
            if rest.contains(other) {
                let i = rest.index_of(other);
                let si = if i < k { i } else { i + 1 };
                assert(rest[i] == names[si]);
            }
            if names.contains(other) {
                let s = names.index_of(other);
                let i = if s < k { s } else { s - 1 };
                assert(rest[i] == names[s]);
            }
        }
    }
}

} // verus!
