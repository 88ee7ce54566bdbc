//! The registry of consumed nullifiers.

use vstd::prelude::*;
use crate::primitives::Nullifier;

verus! {

/// A set of nullifiers. Nothing is ever removed from it.
///
/// The members are kept in the order in which they were first inserted, and
/// none occurs twice.
#[derive(Debug)]
pub struct NullifierSet {
    nullifiers: Vec<Nullifier>,
}

impl View for NullifierSet {
    type V = Set<Nullifier>;

    /// The members, as a mathematical set.
    open spec fn view(&self) -> Set<Nullifier> {
        self.elements().to_set()
    }
}

impl NullifierSet {
    /// No member is stored twice.
    pub open spec fn wf(self) -> bool {
        self.elements().no_duplicates()
    }

    #[verifier::type_invariant]
    spec fn distinct(self) -> bool {
        self.wf()
    }

    /// The members in the order of their first insertion.
    pub closed spec fn elements(self) -> Seq<Nullifier> {
        self.nullifiers@
    }

    /// The empty registry.
    pub fn new() -> (set: Self)
        ensures
            set.wf(),
            set@ == Set::<Nullifier>::empty(),
            set.elements() == Seq::<Nullifier>::empty(),
    {
        let set = NullifierSet { nullifiers: Vec::new() };
        assert(set@ =~= Set::<Nullifier>::empty());
        set
    }

    /// Whether `nullifier` has been recorded.
    pub fn contains(&self, nullifier: &Nullifier) -> (found: bool)
        ensures
            found == self@.contains(*nullifier),
            self.wf(),
    {
        proof {
            use_type_invariant(self);
        }
        let mut i: usize = 0;
        while i < self.nullifiers.len()
            invariant
                i <= self.nullifiers.len(),
                self.wf(),
                forall|k: int| 0 <= k < i ==> self.nullifiers@[k] != *nullifier,
            decreases self.nullifiers.len() - i,
        {
            if self.nullifiers[i].same_as(nullifier) {
                return true;
            }
            i += 1;
        }
        false
    }

    /// Records `nullifier`. Recording a member again changes nothing.
    pub fn insert(&mut self, nullifier: Nullifier)
        ensures
            final(self).wf(),
            final(self)@ == old(self)@.insert(nullifier),
            final(self).elements() == if old(self)@.contains(nullifier) {
                old(self).elements()
            } else {
                old(self).elements().push(nullifier)
            },
    {
        if !self.contains(&nullifier) {
            let mut members: Vec<Nullifier> = Vec::new();
            core::mem::swap(&mut self.nullifiers, &mut members);
            members.push(nullifier);
            self.nullifiers = members;
            proof {
                old(self).nullifiers@.lemma_push_to_set_commute(nullifier);
            }
        } else {
            assert(self@ =~= self@.insert(nullifier));
        }
    }
}

impl NullifierSet {
    /// How many nullifiers are recorded.
    pub fn len(&self) -> (count: usize)
        ensures
            count == self.elements().len(),
            self.wf(),
    {
        proof {
            use_type_invariant(self);
        }
        self.nullifiers.len()
    }

    /// The members in the order of their first insertion.
    pub fn to_vec(&self) -> (members: Vec<Nullifier>)
        ensures
            members@ == self.elements(),
            self.wf(),
    {
        proof {
            use_type_invariant(self);
        }
        let mut members: Vec<Nullifier> = Vec::new();
        let mut i: usize = 0;
        while i < self.nullifiers.len()
            invariant
                i <= self.nullifiers.len(),
                members@ == self.nullifiers@.take(i as int),
            decreases self.nullifiers.len() - i,
        {
            members.push(self.nullifiers[i]);
            assert(self.nullifiers@.take(i as int).push(self.nullifiers@[i as int])
                =~= self.nullifiers@.take(i as int + 1));
            i += 1;
        }
        assert(self.nullifiers@.take(i as int) =~= self.nullifiers@);
        members
    }
}

/// `members` with the nullifiers of `more` recorded behind them in their
/// order, each at its first occurrence and none that is a member already.
pub open spec fn insert_all(members: Seq<Nullifier>, more: Seq<Nullifier>) -> Seq<Nullifier>
    decreases more.len(),
{
    if more.len() == 0 {
        members
    } else {
        let before = insert_all(members, more.drop_last());
        if before.contains(more.last()) {
            before
        } else {
            before.push(more.last())
        }
    }
}

/// Recording more nullifiers keeps the members distinct, keeps every member,
/// and makes every recorded nullifier a member.
pub proof fn lemma_insert_all(members: Seq<Nullifier>, more: Seq<Nullifier>)
    requires
        members.no_duplicates(),
    ensures
        insert_all(members, more).no_duplicates(),
        insert_all(members, more).to_set() == members.to_set().union(more.to_set()),
    decreases more.len(),
{
    if more.len() == 0 {
        assert(members.to_set().union(more.to_set()) =~= members.to_set());
    } else {
        let front = more.drop_last();
        lemma_insert_all(members, front);
        let before = insert_all(members, front);
        assert(more =~= front.push(more.last()));
        front.lemma_push_to_set_commute(more.last());
        if !before.contains(more.last()) {
            before.lemma_push_to_set_commute(more.last());
        }
        assert(insert_all(members, more).to_set() =~= members.to_set().union(more.to_set()));
    }
}

impl NullifierSet {
    /// The registry with exactly the members `members`, in their order.
    /// There is none where a nullifier occurs twice among them.
    pub fn from_members(members: &Vec<Nullifier>) -> (built: Option<NullifierSet>)
        ensures
            match built {
                Some(set) => set.wf() && set.elements() == members@,
                None => !members@.no_duplicates(),
            },
    {
        let mut set = NullifierSet::new();
        let mut i: usize = 0;
        while i < members.len()
            invariant
                i <= members.len(),
                set.wf(),
                set.elements() == members@.take(i as int),
            decreases members.len() - i,
        {
            if set.contains(&members[i]) {
                proof {
                    let earlier = choose|k: int|
                        0 <= k < i && members@.take(i as int)[k] == members@[i as int];
                    assert(members@[earlier] == members@[i as int]);
                }
                return None;
            }
            set.insert(members[i]);
            assert(members@.take(i as int).push(members@[i as int]) =~= members@.take(
                i as int + 1,
            ));
            i += 1;
        }
        assert(members@.take(i as int) =~= members@);
        Some(set)
    }

    /// Records every nullifier of `more`, in their order.
    pub fn extend(&mut self, more: &Vec<Nullifier>)
        ensures
            final(self).wf(),
            final(self).elements() == insert_all(old(self).elements(), more@),
    {
        proof {
            use_type_invariant(&*self);
        }
        let mut i: usize = 0;
        while i < more.len()
            invariant
                i <= more.len(),
                self.wf(),
                self.elements() == insert_all(old(self).elements(), more@.take(i as int)),
            decreases more.len() - i,
        {
            proof {
                assert(more@.take(i as int + 1).drop_last() =~= more@.take(i as int));
            }
            self.insert(more[i]);
            i += 1;
        }
        assert(more@.take(i as int) =~= more@);
    }
}

impl Clone for NullifierSet {
    fn clone(&self) -> (copy: Self)
        ensures
            copy.wf(),
            copy@ == self@,
            copy.elements() == self.elements(),
    {
        NullifierSet { nullifiers: self.to_vec() }
    }
}

} // verus!
