//! Ballots, vote codes and the index from vote code to declared choice.
use vstd::prelude::*;

verus! {

/// The value a vote code stands for.
#[derive(Clone, Copy, Debug, PartialEq, Eq, Structural)]
pub enum ChoiceValue {
    For,
    Against,
}

/// A vote code: the string printed on one half of a ballot.
pub type VoteCode = String;

/// One half of a ballot: a vote code and the choice it casts.
#[derive(Clone, Debug)]
pub struct Choice {
    pub votecode: VoteCode,
    pub choice: ChoiceValue,
}

/// A ballot: a serial number and its two halves.
#[derive(Clone, Debug)]
pub struct Ballot {
    pub serial: u64,
    pub choice1: Choice,
    pub choice2: Choice,
}

/// Lookup from vote code to choice. Each code occurs at most once.
pub struct VoteIndex {
    entries: Vec<(VoteCode, ChoiceValue)>,
    contents: Ghost<Map<Seq<char>, ChoiceValue>>,
}

impl View for VoteIndex {
    type V = Map<Seq<char>, ChoiceValue>;

    closed spec fn view(&self) -> Map<Seq<char>, ChoiceValue> {
        self.contents@
    }
}

/// The index that inserting both halves of each ballot, in order, produces:
/// a later entry for a code replaces an earlier one.
pub open spec fn index_of_ballots(ballots: Seq<Ballot>) -> Map<Seq<char>, ChoiceValue>
    decreases ballots.len(),
{
    if ballots.len() == 0 {
        Map::empty()
    } else {
        let b = ballots.last();
        index_of_ballots(ballots.drop_last()).insert(b.choice1.votecode@, b.choice1.choice).insert(
            b.choice2.votecode@,
            b.choice2.choice,
        )
    }
}

impl VoteIndex {
    pub closed spec fn wf(&self) -> bool {
        &&& forall|i: int, j: int|
            0 <= i < j < self.entries@.len() ==> self.entries@[i].0@ != self.entries@[j].0@
        &&& forall|i: int|
            0 <= i < self.entries@.len() ==> #[trigger] self.contents@.contains_key(
                self.entries@[i].0@,
            ) && self.contents@[self.entries@[i].0@] == self.entries@[i].1
        &&& forall|k: Seq<char>|
            #[trigger] self.contents@.contains_key(k) ==> exists|i: int|
                0 <= i < self.entries@.len() && self.entries@[i].0@ == k
    }

    /// An empty index.
    pub fn new() -> (r: VoteIndex)
        ensures
            r.wf(),
            r@ == Map::<Seq<char>, ChoiceValue>::empty(),
    {
        VoteIndex { entries: Vec::new(), contents: Ghost(Map::empty()) }
    }

    /// Number of codes held.
    pub fn len(&self) -> (r: usize)
        requires
            self.wf(),
        ensures
            r as nat == self@.dom().len(),
    {
        proof {
            self.lemma_dom_len();
        }
        self.entries.len()
    }

    proof fn lemma_dom_len(&self)
        requires
            self.wf(),
        ensures
            self@.dom().len() == self.entries@.len(),
            self@.dom().finite(),
        decreases self.entries@.len(),
    {
        let keys = Seq::new(self.entries@.len(), |i: int| self.entries@[i].0@);
        assert(keys.no_duplicates());
        assert forall|k: Seq<char>| self@.dom().contains(k) <==> keys.to_set().contains(k) by {
            if self@.dom().contains(k) {
                let i = choose|i: int| 0 <= i < self.entries@.len() && self.entries@[i].0@ == k;
                assert(keys[i] == k);
            }
            if keys.to_set().contains(k) {
                let i = choose|i: int| 0 <= i < keys.len() && keys[i] == k;
                assert(self.contents@.contains_key(self.entries@[i].0@));
            }
        }
        assert(self@.dom() =~= keys.to_set());
        keys.unique_seq_to_set();
    }

    /// Position of `code` among the entries, if it is held.
    fn find(&self, code: &String) -> (r: Option<usize>)
        requires
            self.wf(),
        ensures
            match r {
                Some(i) => i < self.entries@.len() && self.entries@[i as int].0@ == code@,
                None => !self@.contains_key(code@),
            },
    {
        let mut i: usize = 0;
        while i < self.entries.len()
            invariant
                self.wf(),
                i <= self.entries@.len(),
                forall|j: int| 0 <= j < i ==> self.entries@[j].0@ != code@,
            decreases self.entries@.len() - i,
        {
            if self.entries[i].0 == *code {
                return Some(i);
            }
            i = i + 1;
        }
        None
    }

    /// The choice held for `code`.
    pub fn get(&self, code: &String) -> (r: Option<ChoiceValue>)
        requires
            self.wf(),
        ensures
            r == (if self@.contains_key(code@) {
                Some(self@[code@])
            } else {
                None::<ChoiceValue>
            }),
    {
        match self.find(code) {
            Some(i) => Some(self.entries[i].1),
            None => None,
        }
    }

    /// Maps `code` to `choice`, replacing what `code` mapped to before.
    pub fn insert(&mut self, code: VoteCode, choice: ChoiceValue)
        requires
            old(self).wf(),
        ensures
            final(self).wf(),
            final(self)@ == old(self)@.insert(code@, choice),
    {
        let ghost k = code@;
        let ghost olde = self.entries@;
        let pos = match self.find(&code) {
            Some(i) => {
                self.entries.set(i, (code, choice));
                i
            },
            None => {
                let n = self.entries.len();
                self.entries.push((code, choice));
                n
            },
        };
        proof {
            assert forall|j: int| 0 <= j < olde.len() && j != pos implies olde[j].0@ != k by {
                assert(old(self).contents@.contains_key(olde[j].0@));
                if pos < olde.len() {
                    if j < pos {
                        assert(olde[j].0@ != olde[pos as int].0@);
                    } else {
                        assert(olde[pos as int].0@ != olde[j].0@);
                    }
                }
            }
            assert forall|j: int| 0 <= j < self.entries@.len() && j != pos implies self.entries@[j]
                == olde[j] by {}
        }
        self.contents = Ghost(self.contents@.insert(k, choice));
        assert(self.entries@[pos as int].0@ == k);
        assert forall|j: int| 0 <= j < self.entries@.len() implies #[trigger] self.contents@.contains_key(
            self.entries@[j].0@,
        ) && self.contents@[self.entries@[j].0@] == self.entries@[j].1 by {
            if j != pos {
                assert(old(self).contents@.contains_key(olde[j].0@));
            }
        }
        assert forall|key: Seq<char>| #[trigger] self.contents@.contains_key(key) implies exists|
            j: int,
        | 0 <= j < self.entries@.len() && self.entries@[j].0@ == key by {
            if key == k {
                assert(self.entries@[pos as int].0@ == key);
            } else {
                let j = choose|j: int| 0 <= j < olde.len() && olde[j].0@ == key;
                assert(self.entries@[j].0@ == key);
            }
        }
    }

    /// Takes `code` out of the index and returns the choice it mapped to.
    pub fn remove(&mut self, code: &String) -> (r: Option<ChoiceValue>)
        requires
            old(self).wf(),
        ensures
            final(self).wf(),
            r == (if old(self)@.contains_key(code@) {
                Some(old(self)@[code@])
            } else {
                None::<ChoiceValue>
            }),
            final(self)@ == old(self)@.remove(code@),
    {
        match self.find(code) {
            Some(i) => {
                let ghost olde = self.entries@;
                let (_, c) = self.entries.remove(i);
                self.contents = Ghost(self.contents@.remove(code@));
                assert forall|j: int| 0 <= j < self.entries@.len() implies #[trigger] self.contents@.contains_key(
                    self.entries@[j].0@,
                ) && self.contents@[self.entries@[j].0@] == self.entries@[j].1 by {
                    let oj = if j < i { j } else { j + 1 };
                    assert(self.entries@[j] == olde[oj]);
                    if oj < i {
                        assert(olde[oj].0@ != olde[i as int].0@);
                    } else {
                        assert(olde[i as int].0@ != olde[oj].0@);
                    }
                    assert(old(self).contents@.contains_key(olde[oj].0@));
                }
                assert forall|key: Seq<char>| #[trigger] self.contents@.contains_key(key) implies exists|
                    j: int,
                | 0 <= j < self.entries@.len() && self.entries@[j].0@ == key by {
                    let oj = choose|oj: int| 0 <= oj < olde.len() && olde[oj].0@ == key;
                    let j = if oj < i { oj } else { oj - 1 };
                    assert(self.entries@[j] == olde[oj]);
                }
                assert forall|a: int, b: int| 0 <= a < b < self.entries@.len() implies self.entries@[a].0@
                    != self.entries@[b].0@ by {
                    let oa = if a < i { a } else { a + 1 };
                    let ob = if b < i { b } else { b + 1 };
                    assert(self.entries@[a] == olde[oa]);
                    assert(self.entries@[b] == olde[ob]);
                }
                Some(c)
            },
            None => {
                assert(self.contents@.remove(code@) =~= self.contents@);
                None
            },
        }
    }
}

/// Builds the index of vote codes from a ballot set. Both halves of each ballot
/// are inserted in order, so where two entries share a code the later one wins.
pub fn map_votes(ballots: Vec<Ballot>) -> (r: VoteIndex)
    ensures
        r.wf(),
        r@ == index_of_ballots(ballots@),
{
    let mut choices = VoteIndex::new();
    let mut i: usize = 0;
    while i < ballots.len()
        invariant
            i <= ballots@.len(),
            choices.wf(),
            choices@ == index_of_ballots(ballots@.subrange(0, i as int)),
        decreases ballots@.len() - i,
    {
        let ballot = &ballots[i];
        choices.insert(ballot.choice1.votecode.clone(), ballot.choice1.choice);
        choices.insert(ballot.choice2.votecode.clone(), ballot.choice2.choice);
        assert(ballots@.subrange(0, i + 1).drop_last() =~= ballots@.subrange(0, i as int));
        i = i + 1;
    }
    assert(ballots@.subrange(0, i as int) =~= ballots@);
    choices
}

} // verus!
