use vstd::prelude::*;

use crate::error::Error;
use crate::job::JobName;

verus! {

/// No name occurs twice in `names`.
pub open spec fn names_unique(names: Seq<Seq<char>>) -> bool {
    forall|i: int, j: int| 0 <= i < j < names.len() ==> names[i] != names[j]
}

/// The job names that handlers were registered under, in the order of registration.
/// The position of a name is the index of its handler.
#[derive(Debug, Clone)]
pub struct Registry {
    names: Vec<String>,
}

impl View for Registry {
    type V = Seq<Seq<char>>;

    closed spec fn view(&self) -> Seq<Seq<char>> {
        self.names@.map_values(|s: String| s@)
    }
}

impl Registry {
    /// Keys are unique.
    pub open spec fn wf(&self) -> bool {
        names_unique(self@)
    }

    /// A registry without handlers.
    pub fn new() -> (r: Registry)
        ensures
            r@ == Seq::<Seq<char>>::empty(),
            r.wf(),
    {
        let r = Registry { names: Vec::new() };
        assert(r@ =~= Seq::<Seq<char>>::empty());
        r
    }

    /// The number of registered handlers.
    pub fn len(&self) -> (r: usize)
        ensures
            r == self@.len(),
    {
        self.names.len()
    }

    /// The index of the handler registered under `name`, if there is one.
    pub fn lookup(&self, name: &str) -> (r: Option<usize>)
        ensures
            r matches Some(i) ==> i < self@.len() && self@[i as int] == name@,
            r is None <==> !self@.contains(name@),
    {
        let target = name.to_string();
        let mut i: usize = 0;
        while i < self.names.len()
            invariant
                i <= self.names@.len(),
                target@ == name@,
                self@.len() == self.names@.len(),
                forall|k: int| 0 <= k < self@.len() ==> self@[k] == #[trigger] self.names@[k]@,
                forall|k: int| 0 <= k < i ==> self@[k] != name@,
            decreases self.names@.len() - i,
        {
            if self.names[i] == target {
                return Some(i);
            }
            i = i + 1;
        }
        proof {
            if self@.contains(name@) {
                let k = choose|k: int| 0 <= k < self@.len() && self@[k] == name@;
                assert(self@[k] != name@);
            }
        }
        None
    }

    /// Register the next handler under `name`. Its index is the number of handlers
    /// registered before. A name that is already registered is refused.
    pub fn register(&mut self, name: JobName) -> (r: Result<usize, Error>)
        requires
            old(self).wf(),
        ensures
            final(self).wf(),
            old(self)@.contains(name.0@) <==> r is Err,
            r matches Err(e) ==> e matches Error::DuplicateRegistration(n) && n@ == name.0@,
            r is Err ==> final(self)@ == old(self)@,
            r matches Ok(i) ==> i == old(self)@.len() && final(self)@ == old(self)@.push(name.0@),
    {
        match self.lookup(name.0.as_str()) {
            Some(_) => Err(Error::DuplicateRegistration(name.0)),
            None => {
                let i = self.names.len();
                let ghost n = name.0@;
                self.names.push(name.0);
                assert(self@ =~= old(self)@.push(n));
                proof {
                    assert forall|a: int, b: int| 0 <= a < b < self@.len() implies self@[a]
                        != self@[b] by {
                        if b == self@.len() - 1 {
                            assert(old(self)@[a] == self@[a]);
                        }
                    }
                }
                Ok(i)
            },
        }
    }
}

} // verus!
