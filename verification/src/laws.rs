//! What holds of the lifecycle as a whole.
//!
//! The statements are over the spec functions that the contracts of the
//! operations use: `initiation_begun` and `initiation_step` for an
//! initiation, `deactivated` for a burn or an expiry, `without_identity` for
//! a close.

use vstd::prelude::*;
use vstd::seq_lib::to_multiset_contains;
use crate::error::ErrorCode;
use crate::identity::HashedIdentity;
use crate::lifecycle::{
    deactivated, initiate_refusal, initiation_begun, initiation_step, minted, InitiateStage,
    InitiateToken, Progress,
};
use crate::record::IdentityRecord;
use crate::registry::{has_identity, lemma_without_identity, without_identity};
use crate::token::TokenOutcome;

verus! {

/// The number of requests that an initiation at `stage` still has to make.
pub open spec fn requests_left(stage: InitiateStage) -> nat {
    match stage {
        InitiateStage::CreateMetadata => 4,
        InitiateStage::MintOne => 3,
        InitiateStage::RevokeMintAuthority => 2,
        InitiateStage::LockAccountAuthority => 1,
    }
}

/// Where the initiation `run` ends when the token service does everything
/// that is asked of it: the result, the record and the registry entries.
pub open spec fn served_to_end(
    run: InitiateToken,
    record: Option<IdentityRecord>,
    entries: Seq<IdentityRecord>,
) -> (Result<(), ErrorCode>, Option<IdentityRecord>, Seq<IdentityRecord>)
    decreases requests_left(run.stage),
{
    let (progress, record_after, entries_after) = initiation_step(
        run,
        TokenOutcome::Success,
        record,
        entries,
    );
    match progress {
        Progress::Next(next) => served_to_end(next, record_after, entries_after),
        Progress::Finished(result) => (result, record_after, entries_after),
    }
}

/// A whole initiation of `identity` at the address of `record`, from its
/// start to its end, with a token service that does everything asked of it.
pub open spec fn initiated(
    record: Option<IdentityRecord>,
    entries: Seq<IdentityRecord>,
    identity: HashedIdentity,
    metadata_is_empty: bool,
) -> (Result<(), ErrorCode>, Option<IdentityRecord>, Seq<IdentityRecord>) {
    match initiation_begun(record, entries, identity, metadata_is_empty) {
        Err(code) => (Err(code), record, entries),
        Ok(run) => served_to_end(run, record, entries),
    }
}

/// A step of an initiation either leaves the record and the registry as
/// they were, or it is the last one, reports success, and writes the active
/// record and its copy at the end of the registry. There is nothing in
/// between.
pub proof fn lemma_initiation_is_atomic(
    run: InitiateToken,
    outcome: TokenOutcome,
    record: Option<IdentityRecord>,
    entries: Seq<IdentityRecord>,
)
    ensures
        ({
            let (progress, record_after, entries_after) = initiation_step(
                run,
                outcome,
                record,
                entries,
            );
            if progress == Progress::Finished(Ok(())) {
                &&& outcome == TokenOutcome::Success
                &&& run.stage == InitiateStage::LockAccountAuthority
                &&& initiate_refusal(record, entries, run.identity) is None
                &&& record_after == Some(minted(run.identity))
                &&& entries_after == entries.push(minted(run.identity))
            } else {
                record_after == record && entries_after == entries
            }
        }),
{
}

/// Served by the token service, an initiation that is not refused at its
/// start runs through all its requests and settles: the record is active
/// with the new identity and the registry has grown by its copy. One that is
/// refused changes nothing.
pub proof fn lemma_initiated(
    record: Option<IdentityRecord>,
    entries: Seq<IdentityRecord>,
    identity: HashedIdentity,
    metadata_is_empty: bool,
)
    ensures
        initiated(record, entries, identity, metadata_is_empty) == match initiate_refusal(
            record,
            entries,
            identity,
        ) {
            Some(code) => (Err::<(), ErrorCode>(code), record, entries),
            None => (
                Ok::<(), ErrorCode>(()),
                Some(minted(identity)),
                entries.push(minted(identity)),
            ),
        },
{
    reveal_with_fuel(served_to_end, 5);
}

/// Initiating the same identity twice, with no close in between: if the
/// first initiation succeeds, the second is refused as a duplicate, at
/// whatever address it is tried, so long as the record there is not active.
pub proof fn lemma_second_initiation_is_duplicate(
    first: Option<IdentityRecord>,
    second: Option<IdentityRecord>,
    entries: Seq<IdentityRecord>,
    identity: HashedIdentity,
    metadata_is_empty: bool,
    metadata_is_empty_again: bool,
)
    requires
        initiated(first, entries, identity, metadata_is_empty).0 is Ok,
        !(second is Some && second->0.is_active),
    ensures
        ({
            let entries_after = initiated(first, entries, identity, metadata_is_empty).2;
            initiated(second, entries_after, identity, metadata_is_empty_again) == (
                Err::<(), ErrorCode>(ErrorCode::DuplicateIdentity),
                second,
                entries_after,
            )
        }),
{
    lemma_initiated(first, entries, identity, metadata_is_empty);
    let entries_after = entries.push(minted(identity));
    assert(entries_after[entries.len() as int].identity == identity);
    lemma_initiated(second, entries_after, identity, metadata_is_empty_again);
}

/// Initiating again at the address of a record that is active is refused
/// because the token is live, whatever the identity asked for.
pub proof fn lemma_initiation_at_active_record(
    record: IdentityRecord,
    entries: Seq<IdentityRecord>,
    identity: HashedIdentity,
    metadata_is_empty: bool,
)
    requires
        record.is_active,
    ensures
        initiated(Some(record), entries, identity, metadata_is_empty) == (
            Err::<(), ErrorCode>(ErrorCode::AlreadyMinted),
            Some(record),
            entries,
        ),
{
    lemma_initiated(Some(record), entries, identity, metadata_is_empty);
}

/// After a burn or an expiry the record is inactive, carries the identity it
/// had, and that identity is listed in the registry as before: the registry
/// is not touched.
pub proof fn lemma_deactivated_stays_listed(record: IdentityRecord, entries: Seq<IdentityRecord>)
    requires
        has_identity(entries, record.identity),
    ensures
        !deactivated(record).is_active,
        deactivated(record).identity == record.identity,
        has_identity(entries, deactivated(record).identity),
{
}

/// After a close no entry of the registry carries the closed record's
/// identity, every other identity is listed exactly if it was before, and an
/// initiation of the closed identity succeeds at any address whose record is
/// not active.
pub proof fn lemma_close_frees_identity(
    closed: IdentityRecord,
    entries: Seq<IdentityRecord>,
    record: Option<IdentityRecord>,
    metadata_is_empty: bool,
)
    requires
        !(record is Some && record->0.is_active),
    ensures
        !has_identity(without_identity(entries, closed.identity), closed.identity),
        forall|other: HashedIdentity|
            other != closed.identity ==> (#[trigger] has_identity(
                without_identity(entries, closed.identity),
                other,
            ) <==> has_identity(entries, other)),
        initiated(
            record,
            without_identity(entries, closed.identity),
            closed.identity,
            metadata_is_empty,
        ) == (
            Ok::<(), ErrorCode>(()),
            Some(minted(closed.identity)),
            without_identity(entries, closed.identity).push(minted(closed.identity)),
        ),
{
    let left = without_identity(entries, closed.identity);
    lemma_without_identity(entries, closed.identity, closed.identity);
    assert forall|other: HashedIdentity| other != closed.identity implies (#[trigger] has_identity(
        left,
        other,
    ) <==> has_identity(entries, other)) by {
        lemma_without_identity(entries, closed.identity, other);
    }
    lemma_initiated(record, left, closed.identity, metadata_is_empty);
}

/// Initiating, at its own address, the identity of a record that is
/// inactive and has not been closed, so that the identity is still listed,
/// is refused as a duplicate.
pub proof fn lemma_reinitiation_without_close(
    record: IdentityRecord,
    entries: Seq<IdentityRecord>,
    metadata_is_empty: bool,
)
    requires
        !record.is_active,
        has_identity(entries, record.identity),
    ensures
        initiated(Some(record), entries, record.identity, metadata_is_empty) == (
            Err::<(), ErrorCode>(ErrorCode::DuplicateIdentity),
            Some(record),
            entries,
        ),
{
    lemma_initiated(Some(record), entries, record.identity, metadata_is_empty);
}

/// A record that was initiated and then burned or expired cannot be
/// initiated again with its identity: the entry of the first initiation is
/// still listed.
pub proof fn lemma_reinitiation_after_deactivation(
    record: Option<IdentityRecord>,
    entries: Seq<IdentityRecord>,
    identity: HashedIdentity,
    metadata_is_empty: bool,
    metadata_is_empty_again: bool,
)
    requires
        initiated(record, entries, identity, metadata_is_empty).0 is Ok,
    ensures
        ({
            let (_, record_after, entries_after) = initiated(
                record,
                entries,
                identity,
                metadata_is_empty,
            );
            &&& record_after == Some(minted(identity))
            &&& initiated(
                Some(deactivated(minted(identity))),
                entries_after,
                identity,
                metadata_is_empty_again,
            ) == (
                Err::<(), ErrorCode>(ErrorCode::DuplicateIdentity),
                Some(deactivated(minted(identity))),
                entries_after,
            )
        }),
{
    lemma_initiated(record, entries, identity, metadata_is_empty);
    let entries_after = entries.push(minted(identity));
    assert(entries_after[entries.len() as int].identity == identity);
    lemma_reinitiation_without_close(
        deactivated(minted(identity)),
        entries_after,
        metadata_is_empty_again,
    );
}

/// Whether an identity is found in the registry does not depend on the
/// order of the entries: two registries with the same entries, in whatever
/// order, find the same identities.
pub proof fn lemma_duplicate_detection_ignores_order(
    entries: Seq<IdentityRecord>,
    permuted: Seq<IdentityRecord>,
    identity: HashedIdentity,
)
    requires
        entries.to_multiset() == permuted.to_multiset(),
    ensures
        has_identity(entries, identity) <==> has_identity(permuted, identity),
{
    lemma_listed_in_permutation(entries, permuted, identity);
    lemma_listed_in_permutation(permuted, entries, identity);
}

proof fn lemma_listed_in_permutation(
    entries: Seq<IdentityRecord>,
    permuted: Seq<IdentityRecord>,
    identity: HashedIdentity,
)
    requires
        entries.to_multiset() == permuted.to_multiset(),
    ensures
        has_identity(entries, identity) ==> has_identity(permuted, identity),
{
    if has_identity(entries, identity) {
        let i = choose|i: int| 0 <= i < entries.len() && entries[i].identity == identity;
        let entry = entries[i];
        assert(entries.contains(entry));
        to_multiset_contains(entries, entry);
        to_multiset_contains(permuted, entry);
        let k = choose|k: int| 0 <= k < permuted.len() && permuted[k] == entry;
        assert(permuted[k].identity == identity);
    }
}

} // verus!
