//! The transitions of an identity: initiate, burn, expire, close.
//!
//! Every operation works on the record at one address and, where it needs
//! it, on the registry handed to it. The token service is outside: the
//! caller performs the requests that an operation names and reports each
//! outcome. A failed operation changes nothing.

use vstd::prelude::*;
use crate::error::ErrorCode;
use crate::identity::{hashed_identity, HashedIdentity};
use crate::record::IdentityRecord;
use crate::registry::{has_identity, lemma_without_identity, without_identity, Registry};
use crate::token::{TokenOp, TokenOutcome};

verus! {

/// The request that an initiation is waiting on.
#[derive(Clone, Copy, Debug, PartialEq, Eq, Structural)]
pub enum InitiateStage {
    CreateMetadata,
    MintOne,
    RevokeMintAuthority,
    LockAccountAuthority,
}

/// An initiation in flight: it has passed the checks, the token service is
/// at work on `stage`, and nothing is settled yet.
#[derive(Clone, Copy, Debug, PartialEq, Eq)]
pub struct InitiateToken {
    pub identity: HashedIdentity,
    pub stage: InitiateStage,
}

/// What one answer of the token service leads to.
#[derive(Clone, Copy, Debug, PartialEq, Eq)]
pub enum Progress {
    /// The initiation goes on with the next request.
    Next(InitiateToken),
    /// The initiation is over: settled, or refused with nothing changed.
    Finished(Result<(), ErrorCode>),
}

/// Why an initiation of `identity` at the address of `record` is refused,
/// if it is: an active record is never overwritten, and an identity that the
/// registry lists is taken, whoever asks.
pub open spec fn initiate_refusal(
    record: Option<IdentityRecord>,
    entries: Seq<IdentityRecord>,
    identity: HashedIdentity,
) -> Option<ErrorCode> {
    if record is Some && record->0.is_active {
        Some(ErrorCode::AlreadyMinted)
    } else if has_identity(entries, identity) {
        Some(ErrorCode::DuplicateIdentity)
    } else {
        None
    }
}

/// The first request of an initiation: metadata is created only where there
/// is none yet.
pub open spec fn first_stage(metadata_is_empty: bool) -> InitiateStage {
    if metadata_is_empty {
        InitiateStage::CreateMetadata
    } else {
        InitiateStage::MintOne
    }
}

/// The request that follows `stage`, if one does.
pub open spec fn next_stage(stage: InitiateStage) -> Option<InitiateStage> {
    match stage {
        InitiateStage::CreateMetadata => Some(InitiateStage::MintOne),
        InitiateStage::MintOne => Some(InitiateStage::RevokeMintAuthority),
        InitiateStage::RevokeMintAuthority => Some(InitiateStage::LockAccountAuthority),
        InitiateStage::LockAccountAuthority => None,
    }
}

/// How an initiation starts.
pub open spec fn initiation_begun(
    record: Option<IdentityRecord>,
    entries: Seq<IdentityRecord>,
    identity: HashedIdentity,
    metadata_is_empty: bool,
) -> Result<InitiateToken, ErrorCode> {
    match initiate_refusal(record, entries, identity) {
        Some(code) => Err(code),
        None => Ok(InitiateToken { identity, stage: first_stage(metadata_is_empty) }),
    }
}

/// The record that a settled initiation of `identity` leaves, which is also
/// the entry it appends to the registry.
pub open spec fn minted(identity: HashedIdentity) -> IdentityRecord {
    IdentityRecord { identity, is_active: true }
}

/// A record after its token was burned or expired.
pub open spec fn deactivated(record: IdentityRecord) -> IdentityRecord {
    IdentityRecord { identity: record.identity, is_active: false }
}

/// The step that the initiation `run` takes on the answer `outcome`: what it
/// reports, and the record and the registry entries that it leaves.
pub open spec fn initiation_step(
    run: InitiateToken,
    outcome: TokenOutcome,
    record: Option<IdentityRecord>,
    entries: Seq<IdentityRecord>,
) -> (Progress, Option<IdentityRecord>, Seq<IdentityRecord>) {
    match outcome {
        TokenOutcome::Failure(code) => (
            Progress::Finished(Err(ErrorCode::TokenService(code))),
            record,
            entries,
        ),
        TokenOutcome::Success => match next_stage(run.stage) {
            Some(stage) => (
                Progress::Next(InitiateToken { identity: run.identity, stage }),
                record,
                entries,
            ),
            None => match initiate_refusal(record, entries, run.identity) {
                Some(code) => (Progress::Finished(Err(code)), record, entries),
                None => (
                    Progress::Finished(Ok(())),
                    Some(minted(run.identity)),
                    entries.push(minted(run.identity)),
                ),
            },
        },
    }
}

impl InitiateStage {
    /// The request to the token service that this stage stands for.
    pub fn op(&self) -> (op: TokenOp)
        ensures
            op == match *self {
                InitiateStage::CreateMetadata => TokenOp::CreateMetadata,
                InitiateStage::MintOne => TokenOp::MintOne,
                InitiateStage::RevokeMintAuthority => TokenOp::RevokeMintAuthority,
                InitiateStage::LockAccountAuthority => TokenOp::LockAccountAuthority,
            },
    {
        match self {
            InitiateStage::CreateMetadata => TokenOp::CreateMetadata,
            InitiateStage::MintOne => TokenOp::MintOne,
            InitiateStage::RevokeMintAuthority => TokenOp::RevokeMintAuthority,
            InitiateStage::LockAccountAuthority => TokenOp::LockAccountAuthority,
        }
    }

    /// The stage that follows this one, if one does.
    pub fn next(&self) -> (following: Option<InitiateStage>)
        ensures
            following == next_stage(*self),
    {
        match self {
            InitiateStage::CreateMetadata => Some(InitiateStage::MintOne),
            InitiateStage::MintOne => Some(InitiateStage::RevokeMintAuthority),
            InitiateStage::RevokeMintAuthority => Some(InitiateStage::LockAccountAuthority),
            InitiateStage::LockAccountAuthority => None,
        }
    }
}

impl InitiateToken {
    /// Says why `identity` cannot be initiated at the address of `record`,
    /// or `None` where it can.
    pub fn refusal(
        record: &Option<IdentityRecord>,
        registry: &Registry,
        identity: &HashedIdentity,
    ) -> (refused: Option<ErrorCode>)
        ensures
            refused == initiate_refusal(*record, registry@, *identity),
    {
        let active = match record {
            Some(existing) => existing.is_active,
            None => false,
        };
        if active {
            Some(ErrorCode::AlreadyMinted)
        } else if registry.find_duplicate(identity).is_some() {
            Some(ErrorCode::DuplicateIdentity)
        } else {
            None
        }
    }

    /// Starts an initiation of `identity` at the address of `record`.
    ///
    /// On `Ok` the caller performs the request of the returned stage and
    /// reports its outcome to `advance`, and so on until `advance` says that
    /// the initiation is finished.
    pub fn begin(
        record: &Option<IdentityRecord>,
        registry: &Registry,
        identity: HashedIdentity,
        metadata_is_empty: bool,
    ) -> (started: Result<InitiateToken, ErrorCode>)
        ensures
            started == initiation_begun(*record, registry@, identity, metadata_is_empty),
    {
        match InitiateToken::refusal(record, registry, &identity) {
            Some(code) => Err(code),
            None => {
                let stage = if metadata_is_empty {
                    InitiateStage::CreateMetadata
                } else {
                    InitiateStage::MintOne
                };
                Ok(InitiateToken { identity, stage })
            },
        }
    }

    /// Takes the outcome of the request that this initiation was waiting on.
    ///
    /// A failure ends the initiation with the service's code. A success
    /// moves on to the next request; after the last one the initiation is
    /// settled: the checks are made once more on the record and the registry
    /// as they now stand, and only if they pass is the record written and
    /// its copy appended to the registry. Nothing is written in any other
    /// case.
    pub fn advance(
        self,
        outcome: TokenOutcome,
        record: &mut Option<IdentityRecord>,
        registry: &mut Registry,
    ) -> (progress: Progress)
        ensures
            (progress, *final(record), final(registry)@) == initiation_step(
                self,
                outcome,
                *old(record),
                old(registry)@,
            ),
    {
        match outcome {
            TokenOutcome::Failure(code) => Progress::Finished(Err(ErrorCode::TokenService(code))),
            TokenOutcome::Success => match self.stage.next() {
                Some(stage) => Progress::Next(InitiateToken { identity: self.identity, stage }),
                None => match InitiateToken::refusal(record, registry, &self.identity) {
                    Some(code) => Progress::Finished(Err(code)),
                    None => {
                        let settled = IdentityRecord::activated(self.identity);
                        *record = Some(settled);
                        registry.append(settled);
                        Progress::Finished(Ok(()))
                    },
                },
            },
        }
    }
}

/// Creates the registry in `slot` if there is none yet, and says whether it
/// did. An existing registry is left exactly as it is, entries and all.
pub fn initialize_registry(slot: &mut Option<Registry>) -> (created: bool)
    ensures
        created == (*old(slot) is None),
        created ==> *final(slot) is Some && final(slot)->0@ == Seq::<IdentityRecord>::empty(),
        !created ==> *final(slot) == *old(slot),
{
    if slot.is_none() {
        *slot = Some(Registry::new());
        true
    } else {
        false
    }
}

/// Starts the initiation of the person with the given name, date of birth
/// and gender: hashes the three fields and begins with the triple.
pub fn initiate_token(
    record: &Option<IdentityRecord>,
    registry: &Registry,
    metadata_is_empty: bool,
    name: &str,
    dob: &str,
    gender: &str,
) -> (started: Result<InitiateToken, ErrorCode>)
    ensures
        started == initiation_begun(
            *record,
            registry@,
            hashed_identity(name@, dob@, gender@),
            metadata_is_empty,
        ),
{
    let identity = HashedIdentity::from_raw(name, dob, gender);
    InitiateToken::begin(record, registry, identity, metadata_is_empty)
}

/// Settles the burn of a record's token, given how the token service
/// answered the request to destroy the unit.
///
/// On success the record goes inactive; on failure it stays as it is and the
/// service's code is returned. The registry is not involved: the identity
/// stays listed until the record is closed.
pub fn burn_token(record: &mut IdentityRecord, burned: TokenOutcome) -> (result: Result<(), ErrorCode>)
    ensures
        match burned {
            TokenOutcome::Success => result == Ok::<(), ErrorCode>(()) && *final(record) == deactivated(
                *old(record),
            ),
            TokenOutcome::Failure(code) => result == Err::<(), ErrorCode>(
                ErrorCode::TokenService(code),
            ) && *final(record) == *old(record),
        },
{
    match burned {
        TokenOutcome::Success => {
            record.deactivate();
            Ok(())
        },
        TokenOutcome::Failure(code) => Err(ErrorCode::TokenService(code)),
    }
}

/// Revokes a record without touching its token: the record goes inactive.
pub fn expire_token(record: &mut IdentityRecord)
    ensures
        *final(record) == deactivated(*old(record)),
{
    record.deactivate();
}

/// Closes a record: the record is consumed, and every registry entry with
/// its identity is removed, so that the identity can be registered again.
pub fn close_identity(record: IdentityRecord, registry: &mut Registry)
    ensures
        final(registry)@ == without_identity(old(registry)@, record.identity),
        !has_identity(final(registry)@, record.identity),
{
    registry.retain_not_matching(&record.identity);
    proof {
        lemma_without_identity(old(registry)@, record.identity, record.identity);
    }
}

} // verus!
