use nft_id_contract::error::ErrorCode;
use nft_id_contract::identity::HashedIdentity;
use nft_id_contract::lifecycle::{
    burn_token, close_identity, expire_token, initialize_registry, initiate_token, InitiateStage,
    InitiateToken, Progress,
};
use nft_id_contract::record::IdentityRecord;
use nft_id_contract::registry::Registry;
use nft_id_contract::token::{TokenOp, TokenOutcome};

fn identity(tag: u8) -> HashedIdentity {
    HashedIdentity { hashed_name: [tag; 32], hashed_dob: [tag; 32], hashed_gender: [tag; 32] }
}

/// Drives an initiation with a token service that does all it is asked, and
/// returns the requests it was asked, in order.
fn serve(
    mut run: InitiateToken,
    record: &mut Option<IdentityRecord>,
    registry: &mut Registry,
) -> (Result<(), ErrorCode>, Vec<TokenOp>) {
    let mut asked = Vec::new();
    loop {
        asked.push(run.stage.op());
        match run.advance(TokenOutcome::Success, record, registry) {
            Progress::Next(next) => run = next,
            Progress::Finished(result) => return (result, asked),
        }
    }
}

fn initiate(
    record: &mut Option<IdentityRecord>,
    registry: &mut Registry,
    id: HashedIdentity,
) -> Result<(), ErrorCode> {
    let run = InitiateToken::begin(record, registry, id, true)?;
    serve(run, record, registry).0
}

#[test]
fn alice_registers_burns_closes_and_registers_again() {
    let mut slot = None;
    assert!(initialize_registry(&mut slot));
    let mut registry = slot.unwrap();
    let alice = HashedIdentity::from_raw("Alice", "2000-01-01", "F");

    let mut first: Option<IdentityRecord> = None;
    let run = initiate_token(&first, &registry, true, "Alice", "2000-01-01", "F").unwrap();
    assert_eq!(run.identity, alice);
    let (result, asked) = serve(run, &mut first, &mut registry);
    assert_eq!(result, Ok(()));
    assert_eq!(
        asked,
        vec![
            TokenOp::CreateMetadata,
            TokenOp::MintOne,
            TokenOp::RevokeMintAuthority,
            TokenOp::LockAccountAuthority
        ]
    );
    assert_eq!(registry.len(), 1);
    assert_eq!(first, Some(IdentityRecord { identity: alice, is_active: true }));

    let second: Option<IdentityRecord> = None;
    assert_eq!(
        initiate_token(&second, &registry, true, "Alice", "2000-01-01", "F"),
        Err(ErrorCode::DuplicateIdentity)
    );
    assert_eq!(registry.len(), 1);

    let mut record = first.unwrap();
    assert_eq!(burn_token(&mut record, TokenOutcome::Success), Ok(()));
    assert!(!record.is_active);
    assert_eq!(record.identity, alice);
    assert_eq!(registry.len(), 1);

    close_identity(record, &mut registry);
    assert_eq!(registry.len(), 0);

    let mut third: Option<IdentityRecord> = None;
    let run = initiate_token(&third, &registry, false, "Alice", "2000-01-01", "F").unwrap();
    let (result, asked) = serve(run, &mut third, &mut registry);
    assert_eq!(result, Ok(()));
    assert_eq!(
        asked,
        vec![TokenOp::MintOne, TokenOp::RevokeMintAuthority, TokenOp::LockAccountAuthority]
    );
    assert_eq!(registry.len(), 1);
    assert_eq!(third, Some(IdentityRecord { identity: alice, is_active: true }));
}

#[test]
fn second_initiation_of_same_identity_is_duplicate() {
    let mut registry = Registry::new();
    let mut here = None;
    assert_eq!(initiate(&mut here, &mut registry, identity(1)), Ok(()));
    let mut elsewhere = None;
    assert_eq!(
        initiate(&mut elsewhere, &mut registry, identity(1)),
        Err(ErrorCode::DuplicateIdentity)
    );
    assert_eq!(elsewhere, None);
    assert_eq!(registry.entries, vec![IdentityRecord { identity: identity(1), is_active: true }]);
}

#[test]
fn second_initiation_at_inactive_record_elsewhere_is_duplicate() {
    let mut registry = Registry::new();
    let mut here = None;
    assert_eq!(initiate(&mut here, &mut registry, identity(1)), Ok(()));
    let stale = IdentityRecord { identity: identity(9), is_active: false };
    let mut elsewhere = Some(stale);
    assert_eq!(
        initiate(&mut elsewhere, &mut registry, identity(1)),
        Err(ErrorCode::DuplicateIdentity)
    );
    assert_eq!(elsewhere, Some(stale));
}

#[test]
fn initiation_at_active_record_is_already_minted() {
    let mut registry = Registry::new();
    let mut here = None;
    assert_eq!(initiate(&mut here, &mut registry, identity(1)), Ok(()));
    assert_eq!(initiate(&mut here, &mut registry, identity(1)), Err(ErrorCode::AlreadyMinted));
    assert_eq!(initiate(&mut here, &mut registry, identity(2)), Err(ErrorCode::AlreadyMinted));
    assert_eq!(registry.len(), 1);
    assert_eq!(here, Some(IdentityRecord { identity: identity(1), is_active: true }));
}

#[test]
fn refusal_names_the_reason() {
    let mut registry = Registry::new();
    registry.append(IdentityRecord { identity: identity(1), is_active: true });
    let active = Some(IdentityRecord { identity: identity(3), is_active: true });
    let inactive = Some(IdentityRecord { identity: identity(3), is_active: false });
    assert_eq!(InitiateToken::refusal(&None, &registry, &identity(2)), None);
    assert_eq!(InitiateToken::refusal(&inactive, &registry, &identity(2)), None);
    assert_eq!(
        InitiateToken::refusal(&None, &registry, &identity(1)),
        Some(ErrorCode::DuplicateIdentity)
    );
    assert_eq!(
        InitiateToken::refusal(&active, &registry, &identity(2)),
        Some(ErrorCode::AlreadyMinted)
    );
    assert_eq!(
        InitiateToken::refusal(&active, &registry, &identity(1)),
        Some(ErrorCode::AlreadyMinted)
    );
}

#[test]
fn burn_deactivates_and_leaves_registry_entry() {
    let mut registry = Registry::new();
    let mut slot = None;
    assert_eq!(initiate(&mut slot, &mut registry, identity(4)), Ok(()));
    let mut record = slot.unwrap();
    assert_eq!(burn_token(&mut record, TokenOutcome::Success), Ok(()));
    assert_eq!(record, IdentityRecord { identity: identity(4), is_active: false });
    assert_eq!(
        registry.find_duplicate(&identity(4)),
        Some(IdentityRecord { identity: identity(4), is_active: true })
    );
}

#[test]
fn failed_burn_changes_nothing() {
    let mut record = IdentityRecord { identity: identity(4), is_active: true };
    assert_eq!(
        burn_token(&mut record, TokenOutcome::Failure(17)),
        Err(ErrorCode::TokenService(17))
    );
    assert_eq!(record, IdentityRecord { identity: identity(4), is_active: true });
}

#[test]
fn expire_deactivates() {
    let mut record = IdentityRecord { identity: identity(5), is_active: true };
    expire_token(&mut record);
    assert_eq!(record, IdentityRecord { identity: identity(5), is_active: false });
    expire_token(&mut record);
    assert_eq!(record, IdentityRecord { identity: identity(5), is_active: false });
}

#[test]
fn close_prunes_registry_and_frees_identity() {
    let mut registry = Registry::new();
    let mut one = None;
    let mut two = None;
    assert_eq!(initiate(&mut one, &mut registry, identity(1)), Ok(()));
    assert_eq!(initiate(&mut two, &mut registry, identity(2)), Ok(()));
    let mut record = one.unwrap();
    expire_token(&mut record);
    close_identity(record, &mut registry);
    assert_eq!(registry.find_duplicate(&identity(1)), None);
    assert_eq!(registry.entries, vec![IdentityRecord { identity: identity(2), is_active: true }]);
    let mut fresh = None;
    assert_eq!(initiate(&mut fresh, &mut registry, identity(1)), Ok(()));
    assert_eq!(fresh, Some(IdentityRecord { identity: identity(1), is_active: true }));
    assert_eq!(registry.len(), 2);
}

#[test]
fn reinitiating_inactive_record_without_close_is_duplicate() {
    let mut registry = Registry::new();
    let mut slot = None;
    assert_eq!(initiate(&mut slot, &mut registry, identity(6)), Ok(()));
    let mut record = slot.unwrap();
    assert_eq!(burn_token(&mut record, TokenOutcome::Success), Ok(()));
    let mut slot = Some(record);
    assert_eq!(initiate(&mut slot, &mut registry, identity(6)), Err(ErrorCode::DuplicateIdentity));
    assert_eq!(slot, Some(IdentityRecord { identity: identity(6), is_active: false }));
    assert_eq!(registry.len(), 1);

    let mut expired = IdentityRecord { identity: identity(7), is_active: true };
    registry.append(expired);
    expire_token(&mut expired);
    let mut slot = Some(expired);
    assert_eq!(initiate(&mut slot, &mut registry, identity(7)), Err(ErrorCode::DuplicateIdentity));
}

#[test]
fn inactive_record_takes_a_new_identity() {
    let mut registry = Registry::new();
    let mut slot = None;
    assert_eq!(initiate(&mut slot, &mut registry, identity(1)), Ok(()));
    let mut record = slot.unwrap();
    expire_token(&mut record);
    let mut slot = Some(record);
    assert_eq!(initiate(&mut slot, &mut registry, identity(2)), Ok(()));
    assert_eq!(slot, Some(IdentityRecord { identity: identity(2), is_active: true }));
    assert_eq!(
        registry.entries,
        vec![
            IdentityRecord { identity: identity(1), is_active: true },
            IdentityRecord { identity: identity(2), is_active: true }
        ]
    );
}

#[test]
fn token_failure_at_any_stage_changes_nothing() {
    let stages = [
        InitiateStage::CreateMetadata,
        InitiateStage::MintOne,
        InitiateStage::RevokeMintAuthority,
        InitiateStage::LockAccountAuthority,
    ];
    for stage in stages {
        let mut registry = Registry::new();
        registry.append(IdentityRecord { identity: identity(1), is_active: true });
        let before = registry.clone();
        let old = IdentityRecord { identity: identity(8), is_active: false };
        let mut slot = Some(old);
        let run = InitiateToken { identity: identity(2), stage };
        assert_eq!(
            run.advance(TokenOutcome::Failure(3), &mut slot, &mut registry),
            Progress::Finished(Err(ErrorCode::TokenService(3)))
        );
        assert_eq!(slot, Some(old));
        assert_eq!(registry, before);
    }
}

#[test]
fn nothing_is_written_before_the_last_request() {
    let mut registry = Registry::new();
    let mut slot = None;
    let run = InitiateToken::begin(&slot, &registry, identity(1), true).unwrap();
    assert_eq!(run, InitiateToken { identity: identity(1), stage: InitiateStage::CreateMetadata });
    let mut run = run;
    for expected in [
        InitiateStage::MintOne,
        InitiateStage::RevokeMintAuthority,
        InitiateStage::LockAccountAuthority,
    ] {
        match run.advance(TokenOutcome::Success, &mut slot, &mut registry) {
            Progress::Next(next) => {
                assert_eq!(next, InitiateToken { identity: identity(1), stage: expected });
                run = next;
            }
            Progress::Finished(_) => panic!("finished early"),
        }
        assert_eq!(slot, None);
        assert_eq!(registry.len(), 0);
    }
    assert_eq!(
        run.advance(TokenOutcome::Success, &mut slot, &mut registry),
        Progress::Finished(Ok(()))
    );
    assert_eq!(slot, Some(IdentityRecord { identity: identity(1), is_active: true }));
    assert_eq!(registry.len(), 1);
}

#[test]
fn settlement_checks_again() {
    let mut registry = Registry::new();
    let mut slot = None;
    let run = InitiateToken { identity: identity(1), stage: InitiateStage::LockAccountAuthority };
    registry.append(IdentityRecord { identity: identity(1), is_active: false });
    assert_eq!(
        run.advance(TokenOutcome::Success, &mut slot, &mut registry),
        Progress::Finished(Err(ErrorCode::DuplicateIdentity))
    );
    assert_eq!(slot, None);
    assert_eq!(registry.len(), 1);
    let mut active = Some(IdentityRecord { identity: identity(2), is_active: true });
    let run = InitiateToken { identity: identity(3), stage: InitiateStage::LockAccountAuthority };
    assert_eq!(
        run.advance(TokenOutcome::Success, &mut active, &mut registry),
        Progress::Finished(Err(ErrorCode::AlreadyMinted))
    );
    assert_eq!(active, Some(IdentityRecord { identity: identity(2), is_active: true }));
}

#[test]
fn stages_follow_in_order() {
    assert_eq!(InitiateStage::CreateMetadata.next(), Some(InitiateStage::MintOne));
    assert_eq!(InitiateStage::MintOne.next(), Some(InitiateStage::RevokeMintAuthority));
    assert_eq!(InitiateStage::RevokeMintAuthority.next(), Some(InitiateStage::LockAccountAuthority));
    assert_eq!(InitiateStage::LockAccountAuthority.next(), None);
    assert_eq!(InitiateStage::CreateMetadata.op(), TokenOp::CreateMetadata);
    assert_eq!(InitiateStage::MintOne.op(), TokenOp::MintOne);
    assert_eq!(InitiateStage::RevokeMintAuthority.op(), TokenOp::RevokeMintAuthority);
    assert_eq!(InitiateStage::LockAccountAuthority.op(), TokenOp::LockAccountAuthority);
}

#[test]
fn existing_metadata_is_not_created_again() {
    let registry = Registry::new();
    let run = InitiateToken::begin(&None, &registry, identity(1), false).unwrap();
    assert_eq!(run.stage, InitiateStage::MintOne);
    let run = InitiateToken::begin(&None, &registry, identity(1), true).unwrap();
    assert_eq!(run.stage, InitiateStage::CreateMetadata);
}

#[test]
fn initialize_registry_keeps_existing_entries() {
    let mut slot = None;
    assert!(initialize_registry(&mut slot));
    assert_eq!(slot, Some(Registry::new()));
    slot.as_mut().unwrap().append(IdentityRecord { identity: identity(1), is_active: true });
    assert!(!initialize_registry(&mut slot));
    assert_eq!(
        slot.unwrap().entries,
        vec![IdentityRecord { identity: identity(1), is_active: true }]
    );
}
