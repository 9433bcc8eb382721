//! The records at all addresses together with the registry, and what every
//! lifecycle operation keeps true of them.

use vstd::prelude::*;
use crate::identity::HashedIdentity;
use crate::lifecycle::{deactivated, initiate_refusal, minted};
use crate::record::IdentityRecord;
use crate::registry::{
    distinct_identities, has_identity, lemma_without_identity, lemma_without_identity_distinct,
    without_identity,
};

verus! {

/// Every record that exists, under the address of its token, and the
/// entries of the registry.
pub struct System {
    pub records: Map<[u8; 32], IdentityRecord>,
    pub entries: Seq<IdentityRecord>,
}

/// The record at `address`, if there is one.
pub open spec fn record_at(system: System, address: [u8; 32]) -> Option<IdentityRecord> {
    if system.records.contains_key(address) {
        Some(system.records[address])
    } else {
        None
    }
}

/// What the lifecycle keeps true: the registry lists no identity twice,
/// the identity of every record is listed, and no two records carry the
/// same identity.
pub open spec fn consistent(system: System) -> bool {
    &&& distinct_identities(system.entries)
    &&& forall|address: [u8; 32]| #[trigger]
        system.records.contains_key(address) ==> has_identity(
            system.entries,
            system.records[address].identity,
        )
    &&& forall|one: [u8; 32], other: [u8; 32]|
        #[trigger] system.records.contains_key(one) && #[trigger] system.records.contains_key(other)
            && one != other ==> system.records[one].identity != system.records[other].identity
}

/// The system after a settled initiation of `identity` at `address`.
pub open spec fn after_initiate(system: System, address: [u8; 32], identity: HashedIdentity) -> System {
    System {
        records: system.records.insert(address, minted(identity)),
        entries: system.entries.push(minted(identity)),
    }
}

/// The system after the token at `address` was burned or expired.
pub open spec fn after_deactivate(system: System, address: [u8; 32]) -> System {
    System {
        records: system.records.insert(address, deactivated(system.records[address])),
        entries: system.entries,
    }
}

/// The system after the record at `address` was closed.
pub open spec fn after_close(system: System, address: [u8; 32]) -> System {
    System {
        records: system.records.remove(address),
        entries: without_identity(system.entries, system.records[address].identity),
    }
}

/// The system before anything was registered.
pub open spec fn empty_system() -> System {
    System { records: Map::empty(), entries: Seq::empty() }
}

/// The empty system is consistent.
pub proof fn lemma_empty_is_consistent()
    ensures
        consistent(empty_system()),
{
}

/// An initiation that is not refused keeps the system consistent.
pub proof fn lemma_initiate_keeps_consistent(system: System, address: [u8; 32], identity: HashedIdentity)
    requires
        consistent(system),
        initiate_refusal(record_at(system, address), system.entries, identity) is None,
    ensures
        consistent(after_initiate(system, address, identity)),
{
    let after = after_initiate(system, address, identity);
    let last = system.entries.len() as int;
    assert forall|i: int, j: int| 0 <= i < j < after.entries.len() implies after.entries[i].identity
        != after.entries[j].identity by {
        if j < last {
            assert(system.entries[i].identity != system.entries[j].identity);
        } else {
            assert(system.entries[i].identity != identity);
        }
    }
    assert forall|a: [u8; 32]| #[trigger] after.records.contains_key(a) implies has_identity(
        after.entries,
        after.records[a].identity,
    ) by {
        if a == address {
            assert(after.entries[last].identity == identity);
        } else {
            assert(system.records.contains_key(a));
            let k = choose|k: int|
                0 <= k < system.entries.len() && system.entries[k].identity
                    == system.records[a].identity;
            assert(after.entries[k].identity == system.records[a].identity);
        }
    }
    assert forall|one: [u8; 32], other: [u8; 32]|
        #[trigger] after.records.contains_key(one) && #[trigger] after.records.contains_key(other)
            && one != other implies after.records[one].identity != after.records[other].identity by {
        if one == address {
            assert(system.records.contains_key(other));
        } else if other == address {
            assert(system.records.contains_key(one));
        } else {
            assert(system.records.contains_key(one) && system.records.contains_key(other));
        }
    }
}

/// A burn or an expiry keeps the system consistent.
pub proof fn lemma_deactivate_keeps_consistent(system: System, address: [u8; 32])
    requires
        consistent(system),
        system.records.contains_key(address),
    ensures
        consistent(after_deactivate(system, address)),
{
    let after = after_deactivate(system, address);
    assert forall|a: [u8; 32]| #[trigger] after.records.contains_key(a) implies has_identity(
        after.entries,
        after.records[a].identity,
    ) by {
        assert(system.records.contains_key(a));
    }
    assert forall|one: [u8; 32], other: [u8; 32]|
        #[trigger] after.records.contains_key(one) && #[trigger] after.records.contains_key(other)
            && one != other implies after.records[one].identity != after.records[other].identity by {
        assert(system.records.contains_key(one) && system.records.contains_key(other));
    }
}

/// A close keeps the system consistent.
pub proof fn lemma_close_keeps_consistent(system: System, address: [u8; 32])
    requires
        consistent(system),
        system.records.contains_key(address),
    ensures
        consistent(after_close(system, address)),
{
    let after = after_close(system, address);
    let closed = system.records[address].identity;
    lemma_without_identity_distinct(system.entries, closed);
    assert forall|a: [u8; 32]| #[trigger] after.records.contains_key(a) implies has_identity(
        after.entries,
        after.records[a].identity,
    ) by {
        assert(system.records.contains_key(a) && system.records.contains_key(address));
        lemma_without_identity(system.entries, closed, system.records[a].identity);
    }
    assert forall|one: [u8; 32], other: [u8; 32]|
        #[trigger] after.records.contains_key(one) && #[trigger] after.records.contains_key(other)
            && one != other implies after.records[one].identity != after.records[other].identity by {
        assert(system.records.contains_key(one) && system.records.contains_key(other));
    }
}

/// In a consistent system an identity has at most one active record: two
/// active records at different addresses carry different identities.
pub proof fn lemma_one_active_record_per_identity(system: System, one: [u8; 32], other: [u8; 32])
    requires
        consistent(system),
        system.records.contains_key(one),
        system.records.contains_key(other),
        system.records[one].is_active,
        system.records[other].is_active,
        system.records[one].identity == system.records[other].identity,
    ensures
        one == other,
{
}

} // verus!
