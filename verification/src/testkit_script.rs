//! Scripts a test double answers from.

use vstd::prelude::*;

use crate::text::same_text;

verus! {

/// Answers scripted by name: the latest scripted for a name is the one given.
#[derive(Debug)]
pub struct Script<V> {
    entries: Vec<(String, V)>,
}

/// The latest answer scripted for a name.
spec fn latest<V>(entries: Seq<(String, V)>, name: Seq<char>) -> Option<V>
    decreases entries.len(),
{
    if entries.len() == 0 {
        None
    } else if entries.last().0@ == name {
        Some(entries.last().1)
    } else {
        latest(entries.drop_last(), name)
    }
}

impl<V> View for Script<V> {
    type V = Map<Seq<char>, V>;

    closed spec fn view(&self) -> Map<Seq<char>, V> {
        Map::new(
            |name: Seq<char>| latest(self.entries@, name) is Some,
            |name: Seq<char>| latest(self.entries@, name)->Some_0,
        )
    }
}

impl<V> Script<V> {
    /// Nothing scripted.
    pub fn new() -> (script: Self)
        ensures
            script@ == Map::<Seq<char>, V>::empty(),
    {
        let script = Script { entries: Vec::new() };
        assert(script@ =~= Map::<Seq<char>, V>::empty());
        script
    }

    /// Scripts the answer given for a name from now on.
    pub fn insert(&mut self, name: String, answer: V)
        ensures
            final(self)@ == old(self)@.insert(name@, answer),
    {
        let ghost before = self.entries@;
        self.entries.push((name, answer));
        proof {
            let after = self.entries@;
            assert(after.drop_last() =~= before);
            assert(after.last() == (name, answer));
            assert forall|other: Seq<char>| #[trigger]
                latest(after, other) == (if other == name@ {
                    Some(answer)
                } else {
                    latest(before, other)
                }) by {}
            assert(self@ =~= old(self)@.insert(name@, answer));
        }
    }

    /// The answer scripted for a name.
    pub fn get(&self, name: &str) -> (answer: Option<&V>)
        ensures
            match answer {
                Some(answer) => self@.contains_key(name@) && self@[name@] == *answer,
                None => !self@.contains_key(name@),
            },
    {
        let mut left: usize = self.entries.len();
        assert(self.entries@.subrange(0, left as int) =~= self.entries@);
        while left > 0
            invariant
                left <= self.entries@.len(),
                latest(self.entries@, name@) == latest(
                    self.entries@.subrange(0, left as int),
                    name@,
                ),
            decreases left,
        {
            let ghost rest = self.entries@.subrange(0, left as int);
            proof {
                assert(rest.drop_last() =~= self.entries@.subrange(0, left - 1));
            }
            left = left - 1;
            if same_text(self.entries[left].0.as_str(), name) {
                return Some(&self.entries[left].1);
            }
        }
        None
    }
}

} // verus!
