use linkdrop_nft::drops::Drop;
use linkdrop_nft::drops::DropConfig;
use linkdrop_nft::drops::DropType;
use linkdrop_nft::drops::NFTData;
use linkdrop_nft::drops::NFTDataConfig;
use linkdrop_nft::drops::PublicKey;
use linkdrop_nft::drops::RegisterError;
use linkdrop_nft::drops::ResolveError;
use linkdrop_nft::nft::DropZone;
use linkdrop_nft::nft::MIN_GAS_FOR_SIMPLE_NFT_TRANSFER;

const SELF_ACCOUNT: &str = "linkdrop.test";
const SENDER: &str = "alice.test";
const NFT_CONTRACT: &str = "nft.test";
const DROP_ID: u128 = 1;

fn nft_drop(n_keys: usize, max_claims_per_key: u64, longest: &str) -> Drop {
    let mut pks = Vec::new();
    for i in 0..n_keys {
        pks.push(PublicKey { data: vec![i as u8] });
    }
    Drop {
        num_claims_registered: 0,
        pks,
        drop_config: DropConfig { max_claims_per_key },
        drop_type: DropType::Nft(NFTData {
            nft_sender: SENDER.to_string(),
            nft_contract: NFT_CONTRACT.to_string(),
            longest_token_id: longest.to_string(),
            storage_for_longest: 10_000,
            token_ids: Vec::new(),
        }),
    }
}

fn zone_with(drop: Drop) -> DropZone {
    let mut zone = DropZone::new(SELF_ACCOUNT.to_string());
    zone.drop_for_id.insert(DROP_ID, drop);
    zone
}

fn claims(zone: &DropZone, id: u128) -> u64 {
    zone.drop_for_id.get(id).unwrap().num_claims_registered
}

fn inventory(zone: &DropZone, id: u128) -> Vec<String> {
    match &zone.drop_for_id.get(id).unwrap().drop_type {
        DropType::Nft(n) => n.token_ids.clone(),
        DropType::Simple => panic!("not an NFT drop"),
    }
}

fn register(zone: &mut DropZone, token_id: &str) -> Result<bool, RegisterError> {
    zone.nft_on_transfer(
        token_id.to_string(),
        SENDER.to_string(),
        NFT_CONTRACT.to_string(),
        DROP_ID,
    )
}

fn resolve_refund(
    zone: &mut DropZone,
    ids: &[&str],
    transfer_succeeded: bool,
) -> Result<bool, ResolveError> {
    let ids: Vec<String> = ids.iter().map(|s| s.to_string()).collect();
    zone.nft_resolve_refund(SELF_ACCOUNT.to_string(), DROP_ID, ids, transfer_succeeded)
}

#[test]
fn register_success_updates_state() {
    let mut zone = zone_with(nft_drop(3, 2, "tokenAAA"));
    assert_eq!(register(&mut zone, "tok1"), Ok(false));
    assert_eq!(claims(&zone, DROP_ID), 1);
    assert_eq!(inventory(&zone, DROP_ID), vec!["tok1".to_string()]);
}

#[test]
fn register_duplicate_rejected_without_mutation() {
    let mut zone = zone_with(nft_drop(3, 2, "tokenAAA"));
    assert_eq!(register(&mut zone, "tok1"), Ok(false));
    assert_eq!(register(&mut zone, "tok1"), Err(RegisterError::DuplicateTokenId));
    assert_eq!(claims(&zone, DROP_ID), 1);
    assert_eq!(inventory(&zone, DROP_ID), vec!["tok1".to_string()]);
}

#[test]
fn register_sender_mismatch_rejected_without_mutation() {
    let mut zone = zone_with(nft_drop(3, 2, "tokenAAA"));
    let r = zone.nft_on_transfer(
        "tok1".to_string(),
        "mallory.test".to_string(),
        NFT_CONTRACT.to_string(),
        DROP_ID,
    );
    assert_eq!(r, Err(RegisterError::SenderContractMismatch));
    assert_eq!(claims(&zone, DROP_ID), 0);
    assert!(inventory(&zone, DROP_ID).is_empty());
}

#[test]
fn register_contract_mismatch_rejected_without_mutation() {
    let mut zone = zone_with(nft_drop(3, 2, "tokenAAA"));
    let r = zone.nft_on_transfer(
        "tok1".to_string(),
        SENDER.to_string(),
        "othernft.test".to_string(),
        DROP_ID,
    );
    assert_eq!(r, Err(RegisterError::SenderContractMismatch));
    assert_eq!(claims(&zone, DROP_ID), 0);
    assert!(inventory(&zone, DROP_ID).is_empty());
}

#[test]
fn register_oversized_id_rejected_without_mutation() {
    let mut zone = zone_with(nft_drop(3, 2, "token"));
    assert_eq!(register(&mut zone, "longer-than-longest"), Err(RegisterError::TokenIdTooLong));
    assert_eq!(claims(&zone, DROP_ID), 0);
    assert!(inventory(&zone, DROP_ID).is_empty());
    // the bound is inclusive: an id exactly as long as the longest passes
    assert_eq!(register(&mut zone, "TOKEN"), Ok(false));
}

#[test]
fn register_unknown_drop_rejected() {
    let mut zone = DropZone::new(SELF_ACCOUNT.to_string());
    assert_eq!(register(&mut zone, "tok1"), Err(RegisterError::UnknownDrop));
}

#[test]
fn register_wrong_asset_kind_rejected() {
    let mut zone = DropZone::new(SELF_ACCOUNT.to_string());
    zone.drop_for_id.insert(
        DROP_ID,
        Drop {
            num_claims_registered: 0,
            pks: vec![PublicKey { data: vec![0] }],
            drop_config: DropConfig { max_claims_per_key: 1 },
            drop_type: DropType::Simple,
        },
    );
    assert_eq!(register(&mut zone, "tok1"), Err(RegisterError::AssetKindMismatch));
    assert_eq!(claims(&zone, DROP_ID), 0);
}

#[test]
fn register_clamps_counter_at_quota() {
    // 2 keys x 1 claim per key: the third asset is retained but the counter
    // is clamped at 2
    let mut zone = zone_with(nft_drop(2, 1, "tokenAAA"));
    assert_eq!(register(&mut zone, "tok1"), Ok(false));
    assert_eq!(register(&mut zone, "tok2"), Ok(false));
    assert_eq!(claims(&zone, DROP_ID), 2);
    assert_eq!(register(&mut zone, "tok3"), Ok(false));
    assert_eq!(claims(&zone, DROP_ID), 2);
    assert_eq!(
        inventory(&zone, DROP_ID),
        vec!["tok1".to_string(), "tok2".to_string(), "tok3".to_string()]
    );
}

#[test]
fn refund_failure_recredits_counter_and_keeps_inventory() {
    let mut zone = zone_with(nft_drop(5, 2, "tokenAAA"));
    assert_eq!(register(&mut zone, "tok1"), Ok(false));
    assert_eq!(register(&mut zone, "tok2"), Ok(false));
    let r = resolve_refund(&mut zone, &["tok1", "tok2"], false);
    assert_eq!(r, Ok(false));
    assert_eq!(claims(&zone, DROP_ID), 4);
    assert_eq!(inventory(&zone, DROP_ID), vec!["tok1".to_string(), "tok2".to_string()]);
}

#[test]
fn refund_success_removes_listed_ids_and_keeps_counter() {
    let mut zone = zone_with(nft_drop(5, 2, "tokenAAA"));
    assert_eq!(register(&mut zone, "tok1"), Ok(false));
    assert_eq!(register(&mut zone, "tok2"), Ok(false));
    assert_eq!(register(&mut zone, "tok3"), Ok(false));
    // "ghost" was never registered: its absence is tolerated
    let r = resolve_refund(&mut zone, &["tok2", "ghost"], true);
    assert_eq!(r, Ok(true));
    assert_eq!(claims(&zone, DROP_ID), 3);
    assert_eq!(inventory(&zone, DROP_ID), vec!["tok1".to_string(), "tok3".to_string()]);
}

#[test]
fn refund_success_second_call_is_idempotent() {
    let mut zone = zone_with(nft_drop(5, 2, "tokenAAA"));
    assert_eq!(register(&mut zone, "tok1"), Ok(false));
    assert_eq!(register(&mut zone, "tok2"), Ok(false));
    assert_eq!(resolve_refund(&mut zone, &["tok1"], true), Ok(true));
    let claims_after_first = claims(&zone, DROP_ID);
    let inventory_after_first = inventory(&zone, DROP_ID);
    // replaying the same resolution does not error and removes nothing more
    assert_eq!(resolve_refund(&mut zone, &["tok1"], true), Ok(true));
    assert_eq!(claims(&zone, DROP_ID), claims_after_first);
    assert_eq!(inventory(&zone, DROP_ID), inventory_after_first);
}

#[test]
fn refund_rejects_foreign_caller() {
    let mut zone = zone_with(nft_drop(5, 2, "tokenAAA"));
    assert_eq!(register(&mut zone, "tok1"), Ok(false));
    let r = zone.nft_resolve_refund(
        "mallory.test".to_string(),
        DROP_ID,
        vec!["tok1".to_string()],
        false,
    );
    assert_eq!(r, Err(ResolveError::Unauthorized));
    assert_eq!(claims(&zone, DROP_ID), 1);
    assert_eq!(inventory(&zone, DROP_ID), vec!["tok1".to_string()]);
}

#[test]
fn refund_rejects_unknown_drop() {
    let mut zone = DropZone::new(SELF_ACCOUNT.to_string());
    let r = zone.nft_resolve_refund(
        SELF_ACCOUNT.to_string(),
        DROP_ID,
        vec!["tok1".to_string()],
        true,
    );
    assert_eq!(r, Err(ResolveError::UnknownDrop));
}

#[test]
fn refund_success_rejects_wrong_asset_kind() {
    let mut zone = DropZone::new(SELF_ACCOUNT.to_string());
    zone.drop_for_id.insert(
        DROP_ID,
        Drop {
            num_claims_registered: 0,
            pks: vec![PublicKey { data: vec![0] }],
            drop_config: DropConfig { max_claims_per_key: 1 },
            drop_type: DropType::Simple,
        },
    );
    let r = zone.nft_resolve_refund(
        SELF_ACCOUNT.to_string(),
        DROP_ID,
        vec!["tok1".to_string()],
        true,
    );
    assert_eq!(r, Err(ResolveError::AssetKindMismatch));
}

#[test]
fn refund_failure_works_on_any_asset_kind() {
    // the failure branch only restores the counter and never reads the payload
    let mut zone = DropZone::new(SELF_ACCOUNT.to_string());
    zone.drop_for_id.insert(
        DROP_ID,
        Drop {
            num_claims_registered: 7,
            pks: vec![PublicKey { data: vec![0] }],
            drop_config: DropConfig { max_claims_per_key: 1 },
            drop_type: DropType::Simple,
        },
    );
    let r = zone.nft_resolve_refund(
        SELF_ACCOUNT.to_string(),
        DROP_ID,
        vec!["tok1".to_string(), "tok2".to_string()],
        false,
    );
    assert_eq!(r, Ok(false));
    assert_eq!(claims(&zone, DROP_ID), 9);
}

#[test]
fn resolve_transfer_success_mutates_nothing() {
    let mut zone = zone_with(nft_drop(5, 2, "tokenAAA"));
    assert_eq!(register(&mut zone, "tok1"), Ok(false));
    let r = zone.nft_resolve_transfer(
        SELF_ACCOUNT.to_string(),
        "tok1".to_string(),
        SENDER.to_string(),
        NFT_CONTRACT.to_string(),
        true,
    );
    let (succeeded, action) = r.unwrap();
    assert!(succeeded);
    assert!(action.is_none());
    assert_eq!(claims(&zone, DROP_ID), 1);
    assert_eq!(inventory(&zone, DROP_ID), vec!["tok1".to_string()]);
}

#[test]
fn resolve_transfer_failure_issues_one_compensating_transfer() {
    let mut zone = zone_with(nft_drop(5, 2, "tokenAAA"));
    let r = zone.nft_resolve_transfer(
        SELF_ACCOUNT.to_string(),
        "tok1".to_string(),
        SENDER.to_string(),
        NFT_CONTRACT.to_string(),
        false,
    );
    let (succeeded, action) = r.unwrap();
    assert!(!succeeded);
    let action = action.unwrap();
    assert_eq!(action.contract, NFT_CONTRACT.to_string());
    assert_eq!(action.receiver, SENDER.to_string());
    assert_eq!(action.token_id, "tok1".to_string());
    assert_eq!(action.approval_id, None);
    assert_eq!(action.memo, Some("Linkdropped NFT Refund".to_string()));
    assert_eq!(action.gas, MIN_GAS_FOR_SIMPLE_NFT_TRANSFER);
    assert_eq!(action.deposit, 1);
}

#[test]
fn resolve_transfer_rejects_foreign_caller() {
    let mut zone = zone_with(nft_drop(5, 2, "tokenAAA"));
    let r = zone.nft_resolve_transfer(
        "mallory.test".to_string(),
        "tok1".to_string(),
        SENDER.to_string(),
        NFT_CONTRACT.to_string(),
        false,
    );
    assert_eq!(r, Err(ResolveError::Unauthorized));
}

#[test]
fn from_config_builds_empty_payload() {
    let config = NFTDataConfig {
        nft_sender: SENDER.to_string(),
        nft_contract: NFT_CONTRACT.to_string(),
        longest_token_id: "tokenAAA".to_string(),
    };
    let data = NFTData::from_config(config.clone(), 12_345);
    assert_eq!(data.nft_sender, config.nft_sender);
    assert_eq!(data.nft_contract, config.nft_contract);
    assert_eq!(data.longest_token_id, config.longest_token_id);
    assert_eq!(data.storage_for_longest, 12_345);
    assert!(data.token_ids.is_empty());
}

#[test]
fn store_insert_replaces_existing_drop() {
    let mut zone = zone_with(nft_drop(2, 1, "tokenAAA"));
    let mut replacement = nft_drop(4, 3, "tokenBBB");
    replacement.num_claims_registered = 5;
    zone.drop_for_id.insert(DROP_ID, replacement);
    assert_eq!(claims(&zone, DROP_ID), 5);
    assert_eq!(zone.drop_for_id.entries.len(), 1);
}

#[test]
fn end_to_end_scenario() {
    let mut zone = zone_with(nft_drop(2, 1, "tokenAAA"));

    assert_eq!(register(&mut zone, "tok1"), Ok(false));
    assert_eq!(claims(&zone, DROP_ID), 1);
    assert_eq!(inventory(&zone, DROP_ID), vec!["tok1".to_string()]);

    assert_eq!(register(&mut zone, "tok2"), Ok(false));
    assert_eq!(claims(&zone, DROP_ID), 2);

    // quota reached: the third asset is retained but the counter is clamped
    assert_eq!(register(&mut zone, "tok3"), Ok(false));
    assert_eq!(claims(&zone, DROP_ID), 2);
    assert_eq!(
        inventory(&zone, DROP_ID),
        vec!["tok1".to_string(), "tok2".to_string(), "tok3".to_string()]
    );

    // a failed refund transfer re-credits the counter, inventory untouched
    assert_eq!(resolve_refund(&mut zone, &["tok1"], false), Ok(false));
    assert_eq!(claims(&zone, DROP_ID), 3);
    assert_eq!(
        inventory(&zone, DROP_ID),
        vec!["tok1".to_string(), "tok2".to_string(), "tok3".to_string()]
    );

    // a successful one removes the listed id, counters untouched
    assert_eq!(resolve_refund(&mut zone, &["tok2"], true), Ok(true));
    assert_eq!(claims(&zone, DROP_ID), 3);
    assert_eq!(inventory(&zone, DROP_ID), vec!["tok1".to_string(), "tok3".to_string()]);
}
