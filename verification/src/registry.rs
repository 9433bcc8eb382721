//! The list of every identity that is taken.

use vstd::prelude::*;
use crate::identity::HashedIdentity;
use crate::record::IdentityRecord;

verus! {

/// Whether some entry of `entries` carries the triple `identity`.
pub open spec fn has_identity(entries: Seq<IdentityRecord>, identity: HashedIdentity) -> bool {
    exists|i: int| 0 <= i < entries.len() && (#[trigger] entries[i]).identity == identity
}

/// Whether `i` is the place of the first entry that carries `identity`.
pub open spec fn is_first_match(entries: Seq<IdentityRecord>, identity: HashedIdentity, i: int) -> bool {
    &&& 0 <= i < entries.len()
    &&& entries[i].identity == identity
    &&& forall|j: int| 0 <= j < i ==> (#[trigger] entries[j]).identity != identity
}

/// `entries` without the entries that carry `identity`, the others in order.
pub open spec fn without_identity(entries: Seq<IdentityRecord>, identity: HashedIdentity) -> Seq<IdentityRecord> {
    entries.filter(|e: IdentityRecord| e.identity != identity)
}

/// Whether no two entries carry the same triple.
pub open spec fn distinct_identities(entries: Seq<IdentityRecord>) -> bool {
    forall|i: int, j: int|
        0 <= i < j < entries.len() ==> (#[trigger] entries[i]).identity != (#[trigger] entries[j]).identity
}

/// Removing an identity leaves exactly the other identities listed.
pub proof fn lemma_without_identity(
    entries: Seq<IdentityRecord>,
    identity: HashedIdentity,
    other: HashedIdentity,
)
    ensures
        has_identity(without_identity(entries, identity), other) <==> (other != identity
            && has_identity(entries, other)),
    decreases entries.len(),
{
    let keep = |e: IdentityRecord| e.identity != identity;
    let left = without_identity(entries, identity);
    reveal(Seq::filter);
    if entries.len() > 0 {
        let init = entries.drop_last();
        let last = entries.last();
        let init_left = without_identity(init, identity);
        lemma_without_identity(init, identity, other);
        assert(left == if keep(last) { init_left.push(last) } else { init_left });
        if has_identity(left, other) {
            let i = choose|i: int| 0 <= i < left.len() && left[i].identity == other;
            if i < init_left.len() {
                assert(init_left[i].identity == other);
                let k = choose|k: int| 0 <= k < init.len() && init[k].identity == other;
                assert(entries[k].identity == other);
            } else {
                assert(entries[entries.len() - 1].identity == other);
            }
        }
        if other != identity && has_identity(entries, other) {
            let k = choose|k: int| 0 <= k < entries.len() && entries[k].identity == other;
            if k < init.len() {
                assert(init[k].identity == other);
                let i = choose|i: int| 0 <= i < init_left.len() && init_left[i].identity == other;
                assert(left[i].identity == other);
            } else {
                assert(left[left.len() - 1].identity == other);
            }
        }
    }
}

/// Removing an identity from a registry without duplicates leaves one
/// without duplicates.
pub proof fn lemma_without_identity_distinct(entries: Seq<IdentityRecord>, identity: HashedIdentity)
    requires
        distinct_identities(entries),
    ensures
        distinct_identities(without_identity(entries, identity)),
    decreases entries.len(),
{
    let keep = |e: IdentityRecord| e.identity != identity;
    let left = without_identity(entries, identity);
    reveal(Seq::filter);
    if entries.len() > 0 {
        let init = entries.drop_last();
        let last = entries.last();
        let init_left = without_identity(init, identity);
        assert(left == if keep(last) { init_left.push(last) } else { init_left });
        assert forall|i: int, j: int| 0 <= i < j < init.len() implies init[i].identity
            != init[j].identity by {
            assert(entries[i].identity != entries[j].identity);
        }
        lemma_without_identity_distinct(init, identity);
        lemma_without_identity(init, identity, last.identity);
        assert forall|i: int, j: int| 0 <= i < j < left.len() implies left[i].identity
            != left[j].identity by {
            if j < init_left.len() {
                assert(init_left[i].identity != init_left[j].identity);
            } else if init_left[i].identity == last.identity {
                assert(has_identity(init_left, last.identity));
                let k = choose|k: int| 0 <= k < init.len() && init[k].identity == last.identity;
                assert(entries[k].identity != entries[entries.len() - 1].identity);
            }
        }
    }
}

/// Every identity that currently blocks a new registration, in the order in
/// which they were registered.
///
/// An entry is the record as it stood when it was appended. Its `is_active`
/// flag is not kept up to date afterwards and nothing here reads it: an
/// identity is taken for as long as an entry with its triple is listed.
#[derive(Clone, Debug, PartialEq, Eq)]
pub struct Registry {
    pub entries: Vec<IdentityRecord>,
}

impl View for Registry {
    type V = Seq<IdentityRecord>;

    open spec fn view(&self) -> Seq<IdentityRecord> {
        self.entries@
    }
}

impl Registry {
    /// The empty registry.
    pub fn new() -> (registry: Registry)
        ensures
            registry@ == Seq::<IdentityRecord>::empty(),
    {
        Registry { entries: Vec::new() }
    }

    /// Creates the registry in `slot` if there is none yet, and says whether
    /// it did. An existing registry is left exactly as it is.
    pub fn initialize(slot: &mut Option<Registry>) -> (created: bool)
        ensures
            created == (*old(slot) is None),
            created ==> *final(slot) is Some && final(slot)->0@ == Seq::<IdentityRecord>::empty(),
            !created ==> *final(slot) == *old(slot),
    {
        if slot.is_none() {
            *slot = Some(Registry::new());
            true
        } else {
            false
        }
    }

    /// The number of entries.
    pub fn len(&self) -> (n: usize)
        ensures
            n == self@.len(),
    {
        self.entries.len()
    }

    /// Adds `entry` behind the entries already there.
    pub fn append(&mut self, entry: IdentityRecord)
        ensures
            final(self)@ == old(self)@.push(entry),
    {
        self.entries.push(entry);
    }

    /// The first entry that carries `identity`, if any does.
    pub fn find_duplicate(&self, identity: &HashedIdentity) -> (found: Option<IdentityRecord>)
        ensures
            found is Some <==> has_identity(self@, *identity),
            found matches Some(entry) ==> exists|i: int|
                is_first_match(self@, *identity, i) && self@[i] == entry,
    {
        let mut i: usize = 0;
        while i < self.entries.len()
            invariant
                i <= self.entries.len(),
                forall|j: int| 0 <= j < i ==> (#[trigger] self@[j]).identity != *identity,
            decreases self.entries.len() - i,
        {
            if self.entries[i].identity.matches(identity) {
                assert(is_first_match(self@, *identity, i as int));
                return Some(self.entries[i]);
            }
            i += 1;
        }
        None
    }

    /// Removes every entry that carries `identity`; the others keep their
    /// order.
    pub fn retain_not_matching(&mut self, identity: &HashedIdentity)
        ensures
            final(self)@ == without_identity(old(self)@, *identity),
    {
        let ghost keep = |e: IdentityRecord| e.identity != *identity;
        let mut kept: Vec<IdentityRecord> = Vec::new();
        let mut i: usize = 0;
        while i < self.entries.len()
            invariant
                i <= self.entries.len(),
                keep == |e: IdentityRecord| e.identity != *identity,
                kept@ == self@.take(i as int).filter(keep),
            decreases self.entries.len() - i,
        {
            proof {
                assert(self@.take(i + 1) == self@.take(i as int).push(self@[i as int]));
                self@.take(i as int).lemma_filter_push(self@[i as int], keep);
            }
            if !self.entries[i].identity.matches(identity) {
                kept.push(self.entries[i]);
            }
            i += 1;
        }
        assert(self@.take(i as int) == self@);
        self.entries = kept;
    }
}

} // verus!
