use sha2::{Digest, Sha256};
use veri_charm::charm::{BurnReason, CharmToken, ProductData, TokenMetadata, TransferRecord};
use veri_charm::contract::{
    BeamData, BeamEvent, BeamStatus, Context, Manufacturer, ProofRequest, VeriCharmContract,
    VeriCharmError, BEAM_TIMEOUT_BLOCKS, WARRANTY_PERIOD,
};

fn ctx(sender: &str, height: u64) -> Context {
    Context {
        sender: sender.to_string(),
        block_height: height,
        tx_hash: vec![7u8; 4],
        chain_id: "bitcoin".to_string(),
    }
}

fn data() -> ProductData {
    ProductData {
        name: "Watch".to_string(),
        description: "Steel watch".to_string(),
        serial_number: "SN-1".to_string(),
    }
}

fn meta() -> TokenMetadata {
    TokenMetadata { uri: "ipfs://x".to_string(), image: "img".to_string() }
}

fn started(manufacturer: &str) -> VeriCharmContract {
    let mut c = VeriCharmContract::new();
    c.init(&ctx(manufacturer, 1));
    c
}

fn no_proof() -> ProofRequest {
    ProofRequest { zk_proof: None, public_inputs: vec![] }
}

#[test]
fn mint_transfer_verify_burn_scenario() {
    let mut c = started("M");
    let token = c.mint_charm(&ctx("M", 100), data(), meta()).unwrap();
    assert_eq!(token.id, "M-000001");
    assert_eq!(token.current_owner, "M");
    assert_eq!(token.warranty_period, WARRANTY_PERIOD);
    assert!(!token.burned);
    assert!(token.transfer_history.is_empty());

    c.transfer_charm(&ctx("M", 101), "M-000001".to_string(), "R".to_string(), None).unwrap();
    c.transfer_charm(&ctx("R", 102), "M-000001".to_string(), "C".to_string(), None).unwrap();
    assert!(c.products[0].verify_supply_chain());
    assert_eq!(c.products[0].current_owner, "C");

    let v = c.verify_product(&ctx("X", 103), "M-000001".to_string(), &no_proof(), false).unwrap();
    assert!(v.is_authentic);
    assert!(v.warranty_valid);
    assert_eq!(v.current_owner, "C");
    assert_eq!(v.manufacturer, "M");

    let early = 100 + WARRANTY_PERIOD - 1;
    assert_eq!(
        c.burn_charm(&ctx("C", early), "M-000001".to_string(), BurnReason::RaffleEntry).unwrap_err(),
        VeriCharmError::WarrantyActive
    );
    let late = 100 + WARRANTY_PERIOD;
    let receipt = c.burn_charm(&ctx("C", late), "M-000001".to_string(), BurnReason::RaffleEntry).unwrap();
    assert_eq!(receipt.burner, "C");
    assert_eq!(receipt.burn_time, late);
    let entry = receipt.raffle_entry.unwrap();
    let mut pre = Vec::new();
    pre.extend_from_slice(b"C");
    pre.extend_from_slice(b"M-000001");
    pre.extend_from_slice(&late.to_be_bytes());
    assert_eq!(entry.entry_id, Sha256::digest(&pre).to_vec());
    assert_eq!(entry.participant, "C");
    assert_eq!(entry.product_id, "M-000001");
    assert!(c.products[0].burned);
}

#[test]
fn unregistered_manufacturer_cannot_mint() {
    let mut c = started("M");
    let r = c.mint_charm(&ctx("Z", 5), data(), meta());
    assert_eq!(r.unwrap_err(), VeriCharmError::UnauthorizedManufacturer);
    assert!(c.products.is_empty());
    assert_eq!(c.total_minted, 0);
}

#[test]
fn unverified_manufacturer_cannot_mint() {
    let mut c = started("M");
    c.manufacturers.push(Manufacturer {
        address: "U".to_string(),
        name: "Unverified".to_string(),
        verified: false,
        products_minted: 0,
    });
    let r = c.mint_charm(&ctx("U", 5), data(), meta());
    assert_eq!(r.unwrap_err(), VeriCharmError::ManufacturerNotVerified);
}

#[test]
fn non_owner_cannot_transfer() {
    let mut c = started("M");
    c.mint_charm(&ctx("M", 10), data(), meta()).unwrap();
    let r = c.transfer_charm(&ctx("R", 11), "M-000001".to_string(), "R".to_string(), None);
    assert_eq!(r.unwrap_err(), VeriCharmError::NotTokenOwner);
    assert!(c.products[0].transfer_history.is_empty());
}

#[test]
fn missing_product_is_reported() {
    let mut c = started("M");
    let r = c.transfer_charm(&ctx("M", 11), "M-000009".to_string(), "R".to_string(), None);
    assert_eq!(r.unwrap_err(), VeriCharmError::ProductNotFound);
    let b = c.burn_charm(&ctx("M", 11), "nope".to_string(), BurnReason::Voluntary);
    assert_eq!(b.unwrap_err(), VeriCharmError::ProductNotFound);
    let v = c.verify_product(&ctx("M", 11), "nope".to_string(), &no_proof(), true);
    assert_eq!(v.unwrap_err(), VeriCharmError::ProductNotFound);
}

#[test]
fn ids_are_distinct_across_manufacturers() {
    let mut c = started("A");
    c.init(&ctx("B", 2));
    let a1 = c.mint_charm(&ctx("A", 3), data(), meta()).unwrap();
    let b1 = c.mint_charm(&ctx("B", 3), data(), meta()).unwrap();
    let a2 = c.mint_charm(&ctx("A", 4), data(), meta()).unwrap();
    assert_eq!(a1.id, "A-000001");
    assert_eq!(b1.id, "B-000001");
    assert_eq!(a2.id, "A-000002");
    assert_eq!(c.total_minted, 3);
    assert_eq!(c.manufacturers[0].products_minted, 2);
    assert_eq!(c.manufacturers[1].products_minted, 1);
}

#[test]
fn burned_token_stays_burned() {
    let mut c = started("M");
    c.mint_charm(&ctx("M", 0), data(), meta()).unwrap();
    let t = WARRANTY_PERIOD;
    let r = c.burn_charm(&ctx("M", t), "M-000001".to_string(), BurnReason::Voluntary).unwrap();
    assert!(r.raffle_entry.is_none());
    let again = c.burn_charm(&ctx("M", t + 1), "M-000001".to_string(), BurnReason::Voluntary);
    assert_eq!(again.unwrap_err(), VeriCharmError::TokenBurned);
    let tr = c.transfer_charm(&ctx("M", t + 2), "M-000001".to_string(), "R".to_string(), None);
    assert_eq!(tr.unwrap_err(), VeriCharmError::TokenBurned);
}

#[test]
fn non_owner_cannot_burn() {
    let mut c = started("M");
    c.mint_charm(&ctx("M", 0), data(), meta()).unwrap();
    let r = c.burn_charm(&ctx("Q", WARRANTY_PERIOD), "M-000001".to_string(), BurnReason::Voluntary);
    assert_eq!(r.unwrap_err(), VeriCharmError::NotTokenOwner);
}

#[test]
fn warranty_boundary() {
    let mut c = started("M");
    let t = c.mint_charm(&ctx("M", 50), data(), meta()).unwrap();
    assert!(t.is_in_warranty(50));
    assert!(t.is_in_warranty(50 + WARRANTY_PERIOD - 1));
    assert!(!t.is_in_warranty(50 + WARRANTY_PERIOD));
    assert!(!t.is_in_warranty(u64::MAX));
}

#[test]
fn verification_is_repeatable() {
    let mut c = started("M");
    c.mint_charm(&ctx("M", 0), data(), meta()).unwrap();
    let a = c.verify_product(&ctx("X", 9), "M-000001".to_string(), &no_proof(), false).unwrap();
    let b = c.verify_product(&ctx("X", 9), "M-000001".to_string(), &no_proof(), false).unwrap();
    assert_eq!(a.is_authentic, b.is_authentic);
    assert_eq!(a.warranty_valid, b.warranty_valid);
    assert!(!a.is_authentic);
}

#[test]
fn rejected_proof_and_unknown_manufacturer() {
    let mut c = started("M");
    c.mint_charm(&ctx("M", 0), data(), meta()).unwrap();
    let req = ProofRequest { zk_proof: Some(vec![1, 2]), public_inputs: vec![3] };
    let r = c.verify_product(&ctx("X", 1), "M-000001".to_string(), &req, false);
    assert_eq!(r.unwrap_err(), VeriCharmError::InvalidProof);
    assert!(c.verify_product(&ctx("X", 1), "M-000001".to_string(), &req, true).is_ok());
    c.manufacturers[0].verified = false;
    let r = c.verify_product(&ctx("X", 1), "M-000001".to_string(), &no_proof(), false);
    assert_eq!(r.unwrap_err(), VeriCharmError::ManufacturerNotVerified);
    c.manufacturers.clear();
    let r = c.verify_product(&ctx("X", 1), "M-000001".to_string(), &no_proof(), false);
    assert_eq!(r.unwrap_err(), VeriCharmError::ManufacturerNotFound);
}

fn record(from: &str, to: &str) -> TransferRecord {
    TransferRecord { from: from.to_string(), to: to.to_string(), timestamp: 0, tx_hash: vec![] }
}

fn token_with(history: Vec<TransferRecord>) -> CharmToken {
    CharmToken {
        id: "M-000001".to_string(),
        manufacturer: "M".to_string(),
        product_data: data(),
        metadata: meta(),
        current_owner: "C".to_string(),
        mint_time: 0,
        warranty_period: 10,
        burned: false,
        transfer_history: history,
        zk_proof: None,
    }
}

#[test]
fn supply_chain_rules() {
    assert!(!token_with(vec![]).verify_supply_chain());
    assert!(!token_with(vec![record("M", "R")]).verify_supply_chain());
    assert!(token_with(vec![record("M", "R"), record("R", "C")]).verify_supply_chain());
    assert!(!token_with(vec![record("X", "R"), record("R", "C")]).verify_supply_chain());
    assert!(!token_with(vec![record("M", "R"), record("Q", "C")]).verify_supply_chain());
    assert!(!token_with(vec![record("M", "R"), record("R", "S"), record("T", "C")]).verify_supply_chain());
}

#[test]
fn verification_hash_and_data() {
    let t = token_with(vec![]);
    let mut pre = Vec::new();
    pre.extend_from_slice(b"M-000001");
    pre.extend_from_slice(b"M");
    pre.extend_from_slice(&0u64.to_be_bytes());
    pre.extend_from_slice(b"C");
    let expected = Sha256::digest(&pre).to_vec();
    assert_eq!(t.calculate_verification_hash(), expected);
    let d = t.generate_verification_data(5);
    assert_eq!(d.verification_hash, expected);
    assert!(d.warranty_valid);
    assert!(!t.generate_verification_data(10).warranty_valid);
    assert_eq!(d.product_id, "M-000001");
}

#[test]
fn beam_lifecycle_freezes_token() {
    let mut c = started("M");
    c.mint_charm(&ctx("M", 0), data(), meta()).unwrap();
    let bd = BeamData { payload: vec![] };
    let r = c.cross_chain_beam(&ctx("Q", 5), "M-000001".to_string(), "cardano".to_string(), &bd);
    assert_eq!(r.unwrap_err(), VeriCharmError::NotTokenOwner);
    let receipt = c.cross_chain_beam(&ctx("M", 5), "M-000001".to_string(), "cardano".to_string(), &bd).unwrap();
    let mut pre = Vec::new();
    pre.extend_from_slice(b"M-000001");
    pre.extend_from_slice(b"cardano");
    pre.extend_from_slice(&5u64.to_be_bytes());
    assert_eq!(receipt.beam_id, Sha256::digest(&pre).to_vec());
    assert_eq!(receipt.timeout_height, 5 + BEAM_TIMEOUT_BLOCKS);
    assert_eq!(c.beam_records[0].status, BeamStatus::Initiated);

    let tr = c.transfer_charm(&ctx("M", 6), "M-000001".to_string(), "R".to_string(), None);
    assert_eq!(tr.unwrap_err(), VeriCharmError::BeamActive);
    let again = c.cross_chain_beam(&ctx("M", 6), "M-000001".to_string(), "eth".to_string(), &bd);
    assert_eq!(again.unwrap_err(), VeriCharmError::BeamActive);

    let id = "M-000001".to_string();
    assert_eq!(c.advance_beam(&id, BeamEvent::UnlockConfirmed(vec![1])).unwrap_err(), VeriCharmError::InvalidBeamTransition);
    assert_eq!(c.advance_beam(&id, BeamEvent::LockConfirmed(vec![2])).unwrap(), BeamStatus::Locked);
    assert_eq!(c.beam_records[0].lock_tx_hash, Some(vec![2]));
    assert_eq!(c.advance_beam(&id, BeamEvent::HeightReached(1000)).unwrap_err(), VeriCharmError::InvalidBeamTransition);
    assert_eq!(c.advance_beam(&id, BeamEvent::UnlockConfirmed(vec![3])).unwrap(), BeamStatus::Unlocked);
    assert_eq!(c.advance_beam(&id, BeamEvent::LockConfirmed(vec![4])).unwrap_err(), VeriCharmError::BeamNotFound);
    let tr = c.transfer_charm(&ctx("M", 7), id.clone(), "R".to_string(), None);
    assert_eq!(tr.unwrap_err(), VeriCharmError::BeamActive);
}

#[test]
fn beam_times_out_and_releases_token() {
    let mut c = started("M");
    c.mint_charm(&ctx("M", 0), data(), meta()).unwrap();
    let bd = BeamData { payload: vec![] };
    c.cross_chain_beam(&ctx("M", 10), "M-000001".to_string(), "eth".to_string(), &bd).unwrap();
    let id = "M-000001".to_string();
    assert_eq!(c.advance_beam(&id, BeamEvent::HeightReached(109)).unwrap_err(), VeriCharmError::InvalidBeamTransition);
    assert_eq!(c.advance_beam(&id, BeamEvent::HeightReached(110)).unwrap(), BeamStatus::TimedOut);
    c.transfer_charm(&ctx("M", 111), id, "R".to_string(), None).unwrap();
    assert_eq!(c.products[0].current_owner, "R");
}

#[test]
fn default_state_is_empty() {
    let c = VeriCharmContract::default();
    assert!(c.products.is_empty());
    assert!(c.manufacturers.is_empty());
    assert_eq!(c.total_minted, 0);
}

#[test]
fn reinit_keeps_sequence() {
    let mut c = started("M");
    c.mint_charm(&ctx("M", 1), data(), meta()).unwrap();
    c.manufacturers[0].verified = false;
    c.init(&ctx("M", 2));
    assert!(c.manufacturers[0].verified);
    assert_eq!(c.manufacturers[0].products_minted, 1);
    let t = c.mint_charm(&ctx("M", 3), data(), meta()).unwrap();
    assert_eq!(t.id, "M-000002");
    assert_eq!(c.products.len(), 2);
}

#[test]
fn long_sequence_numbers_are_not_truncated() {
    let mut c = started("M");
    c.manufacturers[0].products_minted = 1234566;
    c.total_minted = 1234566;
    let t = c.mint_charm(&ctx("M", 1), data(), meta()).unwrap();
    assert_eq!(t.id, "M-1234567");
    assert_eq!(c.find_product(&"M-1234567".to_string()), Some(0));
}

#[test]
fn mint_counter_limit_is_reported() {
    let mut c = started("M");
    c.total_minted = u64::MAX;
    let r = c.mint_charm(&ctx("M", 1), data(), meta());
    assert_eq!(r.unwrap_err(), VeriCharmError::MintLimitReached);
    assert!(c.products.is_empty());
}
