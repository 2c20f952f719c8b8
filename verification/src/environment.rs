//! The environment variables of a process.

use vstd::prelude::*;
use vstd::string::*;

use crate::text;

verus! {

/// Environment variables, by name.
#[derive(Debug, Clone)]
pub struct Environment {
    entries: Vec<(String, String)>,
}

/// The value of a variable in a list of entries, in which a later one counts.
pub open spec fn entry_value(entries: Seq<(String, String)>, name: Seq<char>) -> Option<Seq<char>>
    decreases entries.len(),
{
    if entries.len() == 0 {
        None
    } else if entries.last().0@ == name {
        Some(entries.last().1@)
    } else {
        entry_value(entries.drop_last(), name)
    }
}

impl Default for Environment {
    fn default() -> (r: Self)
        ensures
            forall|name: Seq<char>| (#[trigger] r.value_of(name)) is None,
    {
        Environment { entries: Vec::new() }
    }
}

impl Environment {
    /// The value of a variable.
    pub closed spec fn value_of(&self, name: Seq<char>) -> Option<Seq<char>> {
        entry_value(self.entries@, name)
    }

    /// Sets a variable.
    pub fn insert(&mut self, name: String, value: String)
        ensures
            forall|n: Seq<char>| #[trigger]
                final(self).value_of(n) == if n == name@ {
                    Some(value@)
                } else {
                    old(self).value_of(n)
                },
    {
        let ghost before = self.entries@;
        self.entries.push((name, value));
        proof {
            assert(self.entries@.drop_last() =~= before);
        }
    }

    /// Unsets a variable.
    pub fn remove(&mut self, name: &str)
        ensures
            forall|n: Seq<char>| #[trigger]
                final(self).value_of(n) == if n == name@ {
                    None
                } else {
                    old(self).value_of(n)
                },
    {
        let ghost before = self.entries@;
        let mut kept: Vec<(String, String)> = Vec::new();
        let mut i: usize = 0;
        while i < self.entries.len()
            invariant
                i <= self.entries@.len(),
                self.entries@ == before,
                forall|n: Seq<char>| #[trigger]
                    entry_value(kept@, n) == if n == name@ {
                        None
                    } else {
                        entry_value(before.take(i as int), n)
                    },
            decreases self.entries@.len() - i,
        {
            let ghost old_kept = kept@;
            proof {
                assert(before.take(i + 1).drop_last() =~= before.take(i as int));
                assert(before.take(i + 1).last() == before[i as int]);
            }
            let entry = &self.entries[i];
            if !text::same_text(entry.0.as_str(), name) {
                kept.push((entry.0.clone(), entry.1.clone()));
                proof {
                    assert(kept@.drop_last() =~= old_kept);
                }
            }
            proof {
                assert forall|n: Seq<char>| #[trigger]
                    entry_value(kept@, n) == if n == name@ {
                        None
                    } else {
                        entry_value(before.take(i + 1), n)
                    } by {
                    assert(entry_value(old_kept, n) == if n == name@ {
                        None
                    } else {
                        entry_value(before.take(i as int), n)
                    });
                }
            }
            i += 1;
        }
        proof {
            assert(before.take(i as int) =~= before);
        }
        self.entries = kept;
    }

    /// The value of a variable.
    pub fn get(&self, name: &str) -> (r: Option<&str>)
        ensures
            text::opt_str_view(r) == self.value_of(name@),
    {
        let mut i: usize = self.entries.len();
        proof {
            assert(self.entries@.take(i as int) =~= self.entries@);
        }
        while i > 0
            invariant
                i <= self.entries@.len(),
                entry_value(self.entries@, name@) == entry_value(
                    self.entries@.take(i as int),
                    name@,
                ),
            decreases i,
        {
            i -= 1;
            proof {
                assert(self.entries@.take(i + 1).drop_last() =~= self.entries@.take(i as int));
                assert(self.entries@.take(i + 1).last() == self.entries@[i as int]);
            }
            if text::same_text(self.entries[i].0.as_str(), name) {
                return Some(self.entries[i].1.as_str());
            }
        }
        None
    }

    /// The value of a variable, or of another where that one is not set.
    pub fn get_or(&self, primary: &str, fallback: &str) -> (r: Option<&str>)
        ensures
            text::opt_str_view(r) == either(self.value_of(primary@), self.value_of(fallback@)),
    {
        match self.get(primary) {
            Some(value) => Some(value),
            None => self.get(fallback),
        }
    }
}

/// The first of two values that is there.
pub open spec fn either(a: Option<Seq<char>>, b: Option<Seq<char>>) -> Option<Seq<char>> {
    match a {
        Some(a) => Some(a),
        None => b,
    }
}

/// The first variable counts where it is set, and the second only where it is not.
pub proof fn the_first_variable_counts(a: Seq<char>, b: Option<Seq<char>>)
    ensures
        either(Some(a), b) == Some(a),
        either(None, b) == b,
{
}

} // verus!
