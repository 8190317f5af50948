//! The shell's environment: a mapping from variable names to values,
//! seeded from the process environment and mutated by `export`. Modeled
//! as a `Map` from name to value; stored as an association list where a
//! later binding of a name shadows an earlier one.

use vstd::prelude::*;

verus! {

/// The environment-variable mapping.
pub struct Env {
    pairs: Vec<(Vec<char>, Vec<char>)>,
}

/// The mapping an association list denotes: later entries win.
pub open spec fn map_of(s: Seq<(Vec<char>, Vec<char>)>) -> Map<Seq<char>, Seq<char>>
    decreases s.len(),
{
    if s.len() == 0 {
        Map::empty()
    } else {
        map_of(s.drop_last()).insert(s.last().0@, s.last().1@)
    }
}

/// The value the association list gives a name, scanning from the newest
/// entry back.
pub open spec fn get_of(s: Seq<(Vec<char>, Vec<char>)>, k: Seq<char>) -> Option<Seq<char>>
    decreases s.len(),
{
    if s.len() == 0 {
        None
    } else if s.last().0@ == k {
        Some(s.last().1@)
    } else {
        get_of(s.drop_last(), k)
    }
}

proof fn lemma_get_of_map_of(s: Seq<(Vec<char>, Vec<char>)>, k: Seq<char>)
    ensures
        get_of(s, k) == (if map_of(s).contains_key(k) {
            Some(map_of(s)[k])
        } else {
            None::<Seq<char>>
        }),
    decreases s.len(),
{
    if s.len() > 0 {
        lemma_get_of_map_of(s.drop_last(), k);
    }
}

impl View for Env {
    type V = Map<Seq<char>, Seq<char>>;

    closed spec fn view(&self) -> Map<Seq<char>, Seq<char>> {
        map_of(self.pairs@)
    }
}

/// Compares two character sequences.
pub fn chars_eq(a: &[char], b: &[char]) -> (r: bool)
    ensures
        r <==> a@ == b@,
{
    if a.len() != b.len() {
        proof {
            assert(a@ != b@);
        }
        return false;
    }
    let n = a.len();
    let mut i: usize = 0;
    while i < n
        invariant
            n == a@.len(),
            n == b@.len(),
            i <= n,
            forall|j: int| 0 <= j < i ==> a@[j] == b@[j],
        decreases n - i,
    {
        if a[i] != b[i] {
            return false;
        }
        i = i + 1;
    }
    proof {
        assert(a@ =~= b@);
    }
    true
}

impl Env {
    /// An empty environment.
    pub fn new() -> (r: Env)
        ensures
            r@ == Map::<Seq<char>, Seq<char>>::empty(),
    {
        Env { pairs: Vec::new() }
    }

    /// Looks a name up; `None` exactly when the name is unbound.
    pub fn get(&self, name: &[char]) -> (r: Option<&Vec<char>>)
        ensures
            match r {
                Some(v) => self@.contains_key(name@) && v@ == self@[name@],
                None => !self@.contains_key(name@),
            },
    {
        proof {
            lemma_get_of_map_of(self.pairs@, name@);
            assert(self.pairs@.take(self.pairs@.len() as int) =~= self.pairs@);
        }
        let mut j = self.pairs.len();
        while j > 0
            invariant
                j <= self.pairs@.len(),
                get_of(self.pairs@, name@) == get_of(self.pairs@.take(j as int), name@),
            decreases j,
        {
            proof {
                let t = self.pairs@.take(j as int);
                assert(t.last() == self.pairs@[j - 1]);
                assert(t.drop_last() =~= self.pairs@.take(j - 1));
            }
            j = j - 1;
            let entry = &self.pairs[j];
            if chars_eq(entry.0.as_slice(), name) {
                proof {
                    assert(entry.0@ == name@);
                    assert(self.pairs@.take(j + 1).last() == self.pairs@[j as int]);
                    assert(get_of(self.pairs@.take(j + 1), name@) == Some(
                        self.pairs@[j as int].1@,
                    ));
                    assert(get_of(self.pairs@, name@) == Some(entry.1@));
                    lemma_get_of_map_of(self.pairs@, name@);
                    assert(self@.contains_key(name@));
                    assert(entry.1@ == self@[name@]);
                }
                return Some(&entry.1);
            }
        }
        proof {
            assert(self.pairs@.take(0) =~= Seq::<(Vec<char>, Vec<char>)>::empty());
        }
        None
    }

    /// Binds a name to a value, shadowing any earlier binding.
    pub fn set(&mut self, name: Vec<char>, value: Vec<char>)
        ensures
            final(self)@ == old(self)@.insert(name@, value@),
    {
        let ghost n0 = name@;
        let ghost v0 = value@;
        let ghost before = self.pairs@;
        self.pairs.push((name, value));
        proof {
            assert(self.pairs@.drop_last() =~= before);
            assert(self.pairs@.last().0@ == n0);
            assert(self.pairs@.last().1@ == v0);
        }
    }
}

} // verus!
