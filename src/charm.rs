//! The charm token and the records that accompany it.

use crate::digest::{append_text, push_be_bytes, sha256, be_bytes, sha256_of};
use vstd::utf8::encode_utf8;
use vstd::prelude::*;

verus! {

/// Descriptive data of the physical product.
#[derive(Clone, Debug)]
pub struct ProductData {
    pub name: String,
    pub description: String,
    pub serial_number: String,
}

/// Free-form token metadata.
#[derive(Clone, Debug)]
pub struct TokenMetadata {
    pub uri: String,
    pub image: String,
}

/// A charm token representing one physical product.
#[derive(Clone, Debug)]
pub struct CharmToken {
    pub id: String,
    pub manufacturer: String,
    pub product_data: ProductData,
    pub metadata: TokenMetadata,
    pub current_owner: String,
    /// Block height at mint.
    pub mint_time: u64,
    pub warranty_period: u64,
    pub burned: bool,
    pub transfer_history: Vec<TransferRecord>,
    pub zk_proof: Option<Vec<u8>>,
}

/// One custody transfer.
#[derive(Clone, Debug)]
pub struct TransferRecord {
    pub from: String,
    pub to: String,
    pub timestamp: u64,
    pub tx_hash: Vec<u8>,
}

/// Why a token is retired.
#[derive(Clone, Copy, Debug, PartialEq, Eq, Structural)]
pub enum BurnReason {
    RaffleEntry,
    ProductReturn,
    WarrantyClaim,
    Voluntary,
}

/// Proof that a token was retired.
#[derive(Clone, Debug)]
pub struct BurnReceipt {
    pub product_id: String,
    pub burner: String,
    pub burn_time: u64,
    pub raffle_entry: Option<RaffleEntry>,
}

/// A reward draw entry issued when a token is burned for the raffle.
#[derive(Clone, Debug)]
pub struct RaffleEntry {
    pub participant: String,
    pub product_id: String,
    pub burn_time: u64,
    pub entry_id: Vec<u8>,
}

/// Public inputs describing a token at a given height.
#[derive(Clone, Debug)]
pub struct VerificationData {
    pub product_id: String,
    pub manufacturer: String,
    pub current_owner: String,
    pub mint_time: u64,
    pub warranty_valid: bool,
    pub verification_hash: Vec<u8>,
}

/// Whether `now` lies inside the warranty window that starts at `mint_time`.
pub open spec fn warranty_covers(mint_time: u64, period: u64, now: u64) -> bool {
    now < mint_time + period
}

/// Each record starts where the previous one ended, the first at `start`.
pub open spec fn custody_links(h: Seq<TransferRecord>, start: Seq<char>) -> bool {
    forall|i: int|
        0 <= i < h.len() ==> #[trigger] h[i].from@ == (if i == 0 { start } else { h[i - 1].to@ })
}

/// The owner that the history leads to from `start`.
pub open spec fn custody_end(h: Seq<TransferRecord>, start: Seq<char>) -> Seq<char> {
    if h.len() == 0 { start } else { h.last().to@ }
}

/// The bytes that the verification hash is computed over.
pub open spec fn verification_preimage(id: Seq<char>, manufacturer: Seq<char>, mint_time: u64, owner: Seq<char>) -> Seq<u8> {
    encode_utf8(id) + encode_utf8(manufacturer) + be_bytes(mint_time) + encode_utf8(owner)
}

impl CharmToken {
    pub open spec fn in_warranty_at(&self, now: u64) -> bool {
        warranty_covers(self.mint_time, self.warranty_period, now)
    }

    /// The custody chain is deep enough and unbroken from the manufacturer.
    pub open spec fn supply_chain_intact(&self) -> bool {
        self.transfer_history@.len() >= 2 && custody_links(self.transfer_history@, self.manufacturer@)
    }

    /// The history is unbroken and ends at the current owner.
    pub open spec fn consistent(&self) -> bool {
        custody_links(self.transfer_history@, self.manufacturer@)
            && custody_end(self.transfer_history@, self.manufacturer@) == self.current_owner@
    }

    pub open spec fn verification_hash_spec(&self) -> Seq<u8> {
        sha256_of(verification_preimage(self.id@, self.manufacturer@, self.mint_time, self.current_owner@))
    }

    /// Whether the token is still within its warranty period at `current_time`.
    pub fn is_in_warranty(&self, current_time: u64) -> (r: bool)
        ensures
            r == self.in_warranty_at(current_time),
    {
        (current_time as u128) < (self.mint_time as u128) + (self.warranty_period as u128)
    }

    /// Checks that the transfer history forms one unbroken custody chain from
    /// the manufacturer, at least two transfers deep.
    pub fn verify_supply_chain(&self) -> (r: bool)
        ensures
            r == self.supply_chain_intact(),
    {
        let h = &self.transfer_history;
        if h.len() < 2 {
            return false;
        }
        if h[0].from != self.manufacturer {
            return false;
        }
        let mut expected: &String = &self.manufacturer;
        let mut i: usize = 0;
        while i < h.len()
            invariant
                0 <= i <= h@.len(),
                h@ == self.transfer_history@,
                expected@ == (if i == 0 { self.manufacturer@ } else { h@[i - 1].to@ }),
                forall|j: int| 0 <= j < i ==> #[trigger] h@[j].from@ == (if j == 0 { self.manufacturer@ } else { h@[j - 1].to@ }),
            decreases h@.len() - i,
        {
            if h[i].from != *expected {
                return false;
            }
            expected = &h[i].to;
            i = i + 1;
        }
        true
    }

    /// The hash over id, manufacturer, mint height and current owner.
    pub fn calculate_verification_hash(&self) -> (r: Vec<u8>)
        ensures
            r@ == self.verification_hash_spec(),
            r@.len() == 32,
    {
        let mut buf: Vec<u8> = Vec::new();
        append_text(&mut buf, &self.id);
        append_text(&mut buf, &self.manufacturer);
        push_be_bytes(&mut buf, self.mint_time);
        append_text(&mut buf, &self.current_owner);
        assert(buf@ =~= verification_preimage(self.id@, self.manufacturer@, self.mint_time, self.current_owner@));
        sha256(&buf)
    }

    /// The public inputs for a proof about this token at `current_height`.
    pub fn generate_verification_data(&self, current_height: u64) -> (r: VerificationData)
        ensures
            r.product_id@ == self.id@,
            r.manufacturer@ == self.manufacturer@,
            r.current_owner@ == self.current_owner@,
            r.mint_time == self.mint_time,
            r.warranty_valid == self.in_warranty_at(current_height),
            r.verification_hash@ == self.verification_hash_spec(),
            r.verification_hash@.len() == 32,
    {
        VerificationData {
            product_id: self.id.clone(),
            manufacturer: self.manufacturer.clone(),
            current_owner: self.current_owner.clone(),
            mint_time: self.mint_time,
            warranty_valid: self.is_in_warranty(current_height),
            verification_hash: self.calculate_verification_hash(),
        }
    }
}

/// Inside the window the warranty holds, from its end on it does not.
pub proof fn lemma_warranty_window(t: CharmToken, now: u64)
    ensures
        (now as int) < t.mint_time as int + t.warranty_period as int ==> t.in_warranty_at(now),
        (now as int) >= t.mint_time as int + t.warranty_period as int ==> !t.in_warranty_at(now),
{
}

/// For a token whose history is consistent, as every transfer from mint keeps
/// it, the supply chain check succeeds exactly when there are two transfers or more.
pub proof fn lemma_ownership_continuity(t: CharmToken)
    requires
        t.consistent(),
    ensures
        t.supply_chain_intact() <==> t.transfer_history@.len() >= 2,
{
}

} // verus!
