//! The contract state and its entry points.

use crate::charm::{
    custody_end,
    BurnReason, BurnReceipt, CharmToken, ProductData, RaffleEntry, TokenMetadata, TransferRecord,
};
use crate::digest::{append_text, be_bytes, push_be_bytes, sha256, sha256_of};
use vstd::utf8::encode_utf8;
use crate::product_id::{format_product_id, lemma_product_id_injective, product_id_for};
use vstd::prelude::*;

verus! {

/// Warranty granted at mint: 14 days in seconds.
pub const WARRANTY_PERIOD: u64 = 1209600;

/// Blocks within which a beam must complete.
pub const BEAM_TIMEOUT_BLOCKS: u64 = 100;

/// What the host environment supplies with each call.
#[derive(Clone, Debug)]
pub struct Context {
    pub sender: String,
    pub block_height: u64,
    pub tx_hash: Vec<u8>,
    pub chain_id: String,
}

#[derive(Clone, Debug)]
pub struct Manufacturer {
    pub address: String,
    pub name: String,
    pub verified: bool,
    pub products_minted: u64,
}

#[derive(Clone, Debug)]
pub struct Retailer {
    pub address: String,
    pub name: String,
    pub verified: bool,
}

#[derive(Clone, Copy, Debug, PartialEq, Eq, Structural)]
pub enum BeamStatus {
    Initiated,
    Locked,
    Unlocked,
    TimedOut,
}

#[derive(Clone, Debug)]
pub struct CrossChainBeam {
    pub beam_id: Vec<u8>,
    pub product_id: String,
    pub source_chain: String,
    pub target_chain: String,
    pub sender: String,
    pub beam_time: u64,
    pub timeout_height: u64,
    pub status: BeamStatus,
    pub lock_tx_hash: Option<Vec<u8>>,
    pub unlock_tx_hash: Option<Vec<u8>>,
}

/// Opaque payload carried with a beam request.
#[derive(Clone, Debug)]
pub struct BeamData {
    pub payload: Vec<u8>,
}

/// Description of the lock transaction to submit on the source chain.
#[derive(Clone, Debug)]
pub struct LockScript {
    pub beam_id: Vec<u8>,
    pub target_chain: String,
}

#[derive(Clone, Debug)]
pub struct BeamReceipt {
    pub beam_id: Vec<u8>,
    pub lock_script: LockScript,
    pub timeout_height: u64,
}

/// A proof and its public inputs, as submitted for verification.
#[derive(Clone, Debug)]
pub struct ProofRequest {
    pub zk_proof: Option<Vec<u8>>,
    pub public_inputs: Vec<u8>,
}

#[derive(Clone, Debug)]
pub struct VerificationResult {
    pub product_id: String,
    pub is_authentic: bool,
    pub manufacturer: String,
    pub current_owner: String,
    pub warranty_valid: bool,
    pub verification_time: u64,
}

#[derive(Clone, Copy, Debug, PartialEq, Eq, Structural)]
pub enum VeriCharmError {
    UnauthorizedManufacturer,
    ManufacturerNotVerified,
    NotTokenOwner,
    ProductNotFound,
    ManufacturerNotFound,
    TokenBurned,
    WarrantyActive,
    InvalidProof,
    BeamActive,
    BeamNotFound,
    InvalidBeamTransition,
    MintLimitReached,
}

/// The whole contract state.
#[derive(Clone, Debug)]
pub struct VeriCharmContract {
    pub products: Vec<CharmToken>,
    pub manufacturers: Vec<Manufacturer>,
    pub retailers: Vec<Retailer>,
    pub beam_records: Vec<CrossChainBeam>,
    pub total_minted: u64,
}

/// The bytes that a raffle entry id is computed over.
pub open spec fn raffle_preimage(sender: Seq<char>, id: Seq<char>, height: u64) -> Seq<u8> {
    encode_utf8(sender) + encode_utf8(id) + be_bytes(height)
}

/// The bytes that a beam id is computed over.
pub open spec fn beam_preimage(id: Seq<char>, target: Seq<char>, height: u64) -> Seq<u8> {
    encode_utf8(id) + encode_utf8(target) + be_bytes(height)
}

impl VeriCharmContract {
    pub open spec fn has_product(&self, id: Seq<char>) -> bool {
        exists|i: int| 0 <= i < self.products@.len() && #[trigger] self.products@[i].id@ == id
    }

    pub open spec fn product_index(&self, id: Seq<char>) -> int {
        choose|i: int| 0 <= i < self.products@.len() && #[trigger] self.products@[i].id@ == id
    }

    /// The stored token with identifier `id`.
    pub open spec fn token(&self, id: Seq<char>) -> CharmToken {
        self.products@[self.product_index(id)]
    }

    pub open spec fn has_manufacturer(&self, addr: Seq<char>) -> bool {
        exists|i: int| 0 <= i < self.manufacturers@.len() && #[trigger] self.manufacturers@[i].address@ == addr
    }

    pub open spec fn manufacturer_index(&self, addr: Seq<char>) -> int {
        choose|i: int| 0 <= i < self.manufacturers@.len() && #[trigger] self.manufacturers@[i].address@ == addr
    }

    pub open spec fn manufacturer(&self, addr: Seq<char>) -> Manufacturer {
        self.manufacturers@[self.manufacturer_index(addr)]
    }

    /// A beam on the product that has not timed out: it is pending, or the
    /// product now lives on another chain.
    pub open spec fn beam_holds(&self, id: Seq<char>) -> bool {
        exists|b: int|
            0 <= b < self.beam_records@.len() && #[trigger] self.beam_records@[b].product_id@ == id
                && self.beam_records@[b].status != BeamStatus::TimedOut
    }

    /// The token's identifier was made from a sequence number that its
    /// manufacturer has already used.
    pub open spec fn id_spent(&self, t: CharmToken) -> bool {
        &&& self.has_manufacturer(t.manufacturer@)
        &&& exists|k: nat|
            1 <= k <= self.manufacturer(t.manufacturer@).products_minted
                && t.id@ == #[trigger] product_id_for(t.manufacturer@, k)
    }

    /// Well-formedness: identifiers and addresses are unique, every history is
    /// consistent, and every identifier was made from a sequence number already spent.
    pub open spec fn wf(&self) -> bool {
        &&& forall|i: int, j: int|
            0 <= i < self.products@.len() && 0 <= j < self.products@.len() && i != j
                ==> #[trigger] self.products@[i].id@ != #[trigger] self.products@[j].id@
        &&& forall|i: int, j: int|
            0 <= i < self.manufacturers@.len() && 0 <= j < self.manufacturers@.len() && i != j
                ==> #[trigger] self.manufacturers@[i].address@ != #[trigger] self.manufacturers@[j].address@
        &&& forall|i: int| 0 <= i < self.products@.len() ==> (#[trigger] self.products@[i]).consistent()
        &&& forall|i: int| 0 <= i < self.products@.len() ==> self.id_spent(#[trigger] self.products@[i])
        &&& forall|i: int| 0 <= i < self.manufacturers@.len()
            ==> (#[trigger] self.manufacturers@[i]).products_minted <= self.total_minted
    }

    /// The error a mint by `sender` meets, if any.
    pub open spec fn mint_check(&self, sender: Seq<char>) -> Option<VeriCharmError> {
        if !self.has_manufacturer(sender) {
            Some(VeriCharmError::UnauthorizedManufacturer)
        } else if !self.manufacturer(sender).verified {
            Some(VeriCharmError::ManufacturerNotVerified)
        } else if self.total_minted == u64::MAX {
            Some(VeriCharmError::MintLimitReached)
        } else {
            None
        }
    }

    /// The error a transfer of `id` by `sender` meets, if any.
    pub open spec fn transfer_check(&self, sender: Seq<char>, id: Seq<char>) -> Option<VeriCharmError> {
        if !self.has_product(id) {
            Some(VeriCharmError::ProductNotFound)
        } else if self.token(id).current_owner@ != sender {
            Some(VeriCharmError::NotTokenOwner)
        } else if self.token(id).burned {
            Some(VeriCharmError::TokenBurned)
        } else if self.beam_holds(id) {
            Some(VeriCharmError::BeamActive)
        } else {
            None
        }
    }

    /// The error a burn of `id` by `sender` at `now` meets, if any.
    pub open spec fn burn_check(&self, sender: Seq<char>, id: Seq<char>, now: u64) -> Option<VeriCharmError> {
        if !self.has_product(id) {
            Some(VeriCharmError::ProductNotFound)
        } else if self.token(id).current_owner@ != sender {
            Some(VeriCharmError::NotTokenOwner)
        } else if self.token(id).burned {
            Some(VeriCharmError::TokenBurned)
        } else if self.token(id).in_warranty_at(now) {
            Some(VeriCharmError::WarrantyActive)
        } else if self.beam_holds(id) {
            Some(VeriCharmError::BeamActive)
        } else {
            None
        }
    }

    pub open spec fn beam_check(&self, sender: Seq<char>, id: Seq<char>) -> Option<VeriCharmError> {
        self.transfer_check(sender, id)
    }

    /// The error a verification of `id` meets, if any; `proof_accepted` is the
    /// external verifier's verdict on a supplied proof.
    pub open spec fn verify_check(&self, id: Seq<char>, proof_supplied: bool, proof_accepted: bool) -> Option<VeriCharmError> {
        if !self.has_product(id) {
            Some(VeriCharmError::ProductNotFound)
        } else if proof_supplied && !proof_accepted {
            Some(VeriCharmError::InvalidProof)
        } else if !self.has_manufacturer(self.token(id).manufacturer@) {
            Some(VeriCharmError::ManufacturerNotFound)
        } else if !self.manufacturer(self.token(id).manufacturer@).verified {
            Some(VeriCharmError::ManufacturerNotVerified)
        } else {
            None
        }
    }

    /// Everything but the products is unchanged.
    pub open spec fn same_but_products(&self, other: &Self) -> bool {
        &&& self.manufacturers == other.manufacturers
        &&& self.retailers == other.retailers
        &&& self.beam_records == other.beam_records
        &&& self.total_minted == other.total_minted
    }

    pub fn new() -> (r: Self)
        ensures
            r.wf(),
            r.products@.len() == 0,
            r.manufacturers@.len() == 0,
            r.retailers@.len() == 0,
            r.beam_records@.len() == 0,
            r.total_minted == 0,
    {
        VeriCharmContract {
            products: Vec::new(),
            manufacturers: Vec::new(),
            retailers: Vec::new(),
            beam_records: Vec::new(),
            total_minted: 0,
        }
    }

    /// The position of the product with identifier `id`, if stored.
    pub fn find_product(&self, id: &String) -> (r: Option<usize>)
        requires
            self.wf(),
        ensures
            r.is_some() == self.has_product(id@),
            r.is_some() ==> r.unwrap() == self.product_index(id@) && r.unwrap() < self.products@.len(),
    {
        let mut i: usize = 0;
        while i < self.products.len()
            invariant
                0 <= i <= self.products@.len(),
                self.wf(),
                forall|j: int| 0 <= j < i ==> #[trigger] self.products@[j].id@ != id@,
            decreases self.products@.len() - i,
        {
            if self.products[i].id == *id {
                assert(self.products@[i as int].id@ == id@);
                let ghost k = self.product_index(id@);
                assert(self.products@[k].id@ == id@);
                return Some(i);
            }
            i = i + 1;
        }
        None
    }

    fn find_manufacturer(&self, addr: &String) -> (r: Option<usize>)
        requires
            self.wf(),
        ensures
            r.is_some() == self.has_manufacturer(addr@),
            r.is_some() ==> r.unwrap() == self.manufacturer_index(addr@) && r.unwrap() < self.manufacturers@.len(),
    {
        let mut i: usize = 0;
        while i < self.manufacturers.len()
            invariant
                0 <= i <= self.manufacturers@.len(),
                self.wf(),
                forall|j: int| 0 <= j < i ==> #[trigger] self.manufacturers@[j].address@ != addr@,
            decreases self.manufacturers@.len() - i,
        {
            if self.manufacturers[i].address == *addr {
                assert(self.manufacturers@[i as int].address@ == addr@);
                let ghost k = self.manufacturer_index(addr@);
                assert(self.manufacturers@[k].address@ == addr@);
                return Some(i);
            }
            i = i + 1;
        }
        None
    }

    fn has_live_beam(&self, id: &String) -> (r: bool)
        ensures
            r == self.beam_holds(id@),
    {
        let mut b: usize = 0;
        while b < self.beam_records.len()
            invariant
                0 <= b <= self.beam_records@.len(),
                forall|j: int| 0 <= j < b ==> #[trigger] self.beam_records@[j].product_id@ != id@
                    || self.beam_records@[j].status == BeamStatus::TimedOut,
            decreases self.beam_records@.len() - b,
        {
            if self.beam_records[b].product_id == *id && self.beam_records[b].status != BeamStatus::TimedOut {
                assert(self.beam_records@[b as int].product_id@ == id@);
                return true;
            }
            b = b + 1;
        }
        false
    }
}

} // verus!

verus! {

/// `after` is `before` with one transfer to `new_owner` appended.
pub open spec fn is_transfer_of(
    after: CharmToken,
    before: CharmToken,
    new_owner: Seq<char>,
    now: u64,
    tx_hash: Seq<u8>,
    zk_proof: Option<Vec<u8>>,
) -> bool {
    let h = after.transfer_history@;
    &&& after.id == before.id
    &&& after.manufacturer == before.manufacturer
    &&& after.product_data == before.product_data
    &&& after.metadata == before.metadata
    &&& after.mint_time == before.mint_time
    &&& after.warranty_period == before.warranty_period
    &&& after.burned == before.burned
    &&& after.current_owner@ == new_owner
    &&& after.zk_proof == zk_proof
    &&& h.len() == before.transfer_history@.len() + 1
    &&& h.drop_last() == before.transfer_history@
    &&& h.last().from@ == before.current_owner@
    &&& h.last().to@ == new_owner
    &&& h.last().timestamp == now
    &&& h.last().tx_hash@ == tx_hash
}

/// `after` is `before` marked burned, nothing else changed.
pub open spec fn is_burn_of(after: CharmToken, before: CharmToken) -> bool {
    after == CharmToken { burned: true, ..before }
}

/// `t` is the token that a mint of sequence number `n` by `sender` at `now` creates.
pub open spec fn is_fresh_mint(
    t: CharmToken,
    sender: Seq<char>,
    n: nat,
    now: u64,
    product_data: ProductData,
    metadata: TokenMetadata,
) -> bool {
    &&& t.id@ == product_id_for(sender, n)
    &&& t.manufacturer@ == sender
    &&& t.current_owner@ == sender
    &&& t.product_data == product_data
    &&& t.metadata == metadata
    &&& t.mint_time == now
    &&& t.warranty_period == WARRANTY_PERIOD
    &&& !t.burned
    &&& t.transfer_history@.len() == 0
    &&& t.zk_proof.is_none()
}

impl ProductData {
    pub fn duplicate(&self) -> (r: Self)
        ensures
            r == *self,
    {
        ProductData {
            name: self.name.clone(),
            description: self.description.clone(),
            serial_number: self.serial_number.clone(),
        }
    }
}

impl TokenMetadata {
    pub fn duplicate(&self) -> (r: Self)
        ensures
            r == *self,
    {
        TokenMetadata { uri: self.uri.clone(), image: self.image.clone() }
    }
}

fn copy_bytes(v: &Vec<u8>) -> (r: Vec<u8>)
    ensures
        r@ == v@,
{
    let mut r: Vec<u8> = Vec::new();
    let mut i: usize = 0;
    while i < v.len()
        invariant
            0 <= i <= v@.len(),
            r@ == v@.subrange(0, i as int),
        decreases v@.len() - i,
    {
        r.push(v[i]);
        i = i + 1;
        assert(r@ =~= v@.subrange(0, i as int));
    }
    assert(v@.subrange(0, v@.len() as int) =~= v@);
    r
}

impl VeriCharmContract {
    /// Registers the caller as a verified manufacturer. A manufacturer that
    /// is already registered keeps its sequence counter, so that no
    /// identifier is ever made twice.
    pub fn init(&mut self, ctx: &Context)
        requires
            old(self).wf(),
        ensures
            final(self).wf(),
            final(self).has_manufacturer(ctx.sender@),
            final(self).manufacturer(ctx.sender@).verified,
            final(self).manufacturer(ctx.sender@).products_minted == (if old(self).has_manufacturer(ctx.sender@) {
                old(self).manufacturer(ctx.sender@).products_minted
            } else {
                0
            }),
            final(self).manufacturer(ctx.sender@).name@ == "Initial Manufacturer"@,
            final(self).products == old(self).products,
            final(self).retailers == old(self).retailers,
            final(self).beam_records == old(self).beam_records,
            final(self).total_minted == old(self).total_minted,
            forall|a: Seq<char>| a != ctx.sender@ ==> (final(self).has_manufacturer(a) == old(self).has_manufacturer(a))
                && (old(self).has_manufacturer(a) ==> final(self).manufacturer(a) == old(self).manufacturer(a)),
    {
        let ghost pre = *self;
        let ghost pos: int;
        let ghost m: Manufacturer;
        match self.find_manufacturer(&ctx.sender) {
            Some(i) => {
                let prev = self.manufacturers.remove(i);
                let fresh = Manufacturer {
                    address: ctx.sender.clone(),
                    name: "Initial Manufacturer".to_owned(),
                    verified: true,
                    products_minted: prev.products_minted,
                };
                proof { m = fresh; }
                self.manufacturers.insert(i, fresh);
                assert(self.manufacturers@ =~= pre.manufacturers@.update(i as int, m));
                proof {
                    pos = i as int;
                    assert(pre.manufacturers@[pos].address@ == ctx.sender@);
                }
            },
            None => {
                let fresh = Manufacturer {
                    address: ctx.sender.clone(),
                    name: "Initial Manufacturer".to_owned(),
                    verified: true,
                    products_minted: 0,
                };
                proof { m = fresh; }
                self.manufacturers.push(fresh);
                proof {
                    pos = pre.manufacturers@.len() as int;
                    assert forall|j: int| 0 <= j < pre.manufacturers@.len() implies
                        #[trigger] pre.manufacturers@[j].address@ != ctx.sender@ by {
                        if pre.manufacturers@[j].address@ == ctx.sender@ {
                            assert(pre.has_manufacturer(ctx.sender@));
                        }
                    }
                }
            },
        }
        assert(self.manufacturers@[pos] == m);
        assert(forall|j: int| 0 <= j < self.manufacturers@.len() && j != pos ==>
            self.manufacturers@[j] == pre.manufacturers@[j]);
        assert(self.manufacturers@[pos].address@ == ctx.sender@);
        assert(self.has_manufacturer(ctx.sender@));
        let ghost k = self.manufacturer_index(ctx.sender@);
        assert(self.manufacturers@[k].address@ == ctx.sender@);
        assert(k == pos);
        assert forall|a: Seq<char>| a != ctx.sender@ implies (self.has_manufacturer(a) == pre.has_manufacturer(a))
            && (pre.has_manufacturer(a) ==> self.manufacturer(a) == pre.manufacturer(a)) by {
            if pre.has_manufacturer(a) {
                let j = pre.manufacturer_index(a);
                assert(self.manufacturers@[j] == pre.manufacturers@[j]);
                let j2 = self.manufacturer_index(a);
                assert(self.manufacturers@[j2].address@ == a);
            }
            if self.has_manufacturer(a) {
                let j = self.manufacturer_index(a);
                assert(pre.manufacturers@[j].address@ == a);
            }
        }
        proof {
            if pre.has_manufacturer(ctx.sender@) {
                assert(pre.manufacturer_index(ctx.sender@) == pos);
            }
            lemma_ids_stay_spent(pre, *self);
        }
    }
}


impl VeriCharmContract {
    /// Moves custody of a product from the caller to `new_owner`, appending
    /// the transfer to the product's history.
    pub fn transfer_charm(
        &mut self,
        ctx: &Context,
        product_id: String,
        new_owner: String,
        zk_proof: Option<Vec<u8>>,
    ) -> (r: Result<(), VeriCharmError>)
        requires
            old(self).wf(),
        ensures
            final(self).wf(),
            match old(self).transfer_check(ctx.sender@, product_id@) {
                Some(e) => r == Err::<(), VeriCharmError>(e) && *final(self) == *old(self),
                None => {
                    let i = old(self).product_index(product_id@);
                    &&& r is Ok
                    &&& final(self).same_but_products(old(self))
                    &&& final(self).products@.len() == old(self).products@.len()
                    &&& is_transfer_of(final(self).products@[i], old(self).products@[i], new_owner@,
                        ctx.block_height, ctx.tx_hash@, zk_proof)
                    &&& forall|j: int| 0 <= j < old(self).products@.len() && j != i
                        ==> final(self).products@[j] == old(self).products@[j]
                },
            },
    {
        let idx = match self.find_product(&product_id) {
            None => return Err(VeriCharmError::ProductNotFound),
            Some(i) => i,
        };
        if self.products[idx].current_owner != ctx.sender {
            return Err(VeriCharmError::NotTokenOwner);
        }
        if self.products[idx].burned {
            return Err(VeriCharmError::TokenBurned);
        }
        if self.has_live_beam(&product_id) {
            return Err(VeriCharmError::BeamActive);
        }
        let ghost pre = *self;
        let mut tok = self.products.remove(idx);
        let ghost before = tok;
        let rec = TransferRecord {
            from: tok.current_owner.clone(),
            to: new_owner.clone(),
            timestamp: ctx.block_height,
            tx_hash: copy_bytes(&ctx.tx_hash),
        };
        tok.transfer_history.push(rec);
        tok.current_owner = new_owner;
        tok.zk_proof = zk_proof;
        self.products.insert(idx, tok);
        proof {
            let i = idx as int;
            assert(self.products@ =~= pre.products@.update(i, tok));
            assert(tok.transfer_history@.drop_last() =~= before.transfer_history@);
            let h = tok.transfer_history@;
            assert(before.consistent());
            assert forall|j: int| 0 <= j < h.len() implies #[trigger] h[j].from@
                == (if j == 0 { tok.manufacturer@ } else { h[j - 1].to@ }) by {
                assert(tok.manufacturer == before.manufacturer);
                if j < h.len() - 1 {
                    assert(h.drop_last()[j] == h[j]);
                    assert(h[j] == before.transfer_history@[j]);
                    assert(before.transfer_history@[j].from@ == (if j == 0 { before.manufacturer@ } else {
                        before.transfer_history@[j - 1].to@ }));
                    if j > 0 {
                        assert(h.drop_last()[j - 1] == h[j - 1]);
                        assert(h[j - 1] == before.transfer_history@[j - 1]);
                    }
                } else {
                    assert(h[j].from@ == before.current_owner@);
                    assert(before.current_owner@ == custody_end(before.transfer_history@, before.manufacturer@));
                    if j > 0 {
                        assert(h.drop_last()[j - 1] == h[j - 1]);
                        assert(h[j - 1] == before.transfer_history@[j - 1]);
                        assert(before.transfer_history@.last() == before.transfer_history@[j - 1]);
                    }
                }
            }
            assert(tok.consistent());
            assert forall|j: int| 0 <= j < pre.products@.len() implies
                self.products@[j].id == pre.products@[j].id
                && self.products@[j].manufacturer == pre.products@[j].manufacturer by {
                assert(self.products@[j].id == pre.products@[j].id);
            }
            assert(self.manufacturers == pre.manufacturers);
            assert forall|a: Seq<char>| pre.has_manufacturer(a) implies self.has_manufacturer(a)
                && pre.manufacturer(a).products_minted <= self.manufacturer(a).products_minted by {
                let j = pre.manufacturer_index(a);
                assert(self.manufacturers@[j].address@ == a);
            }
            lemma_ids_stay_spent(pre, *self);
        }
        Ok(())
    }
}


impl VeriCharmContract {
    /// Retires a product whose warranty has run out; a burn for the raffle
    /// also yields a raffle entry.
    pub fn burn_charm(
        &mut self,
        ctx: &Context,
        product_id: String,
        burn_reason: BurnReason,
    ) -> (r: Result<BurnReceipt, VeriCharmError>)
        requires
            old(self).wf(),
        ensures
            final(self).wf(),
            match old(self).burn_check(ctx.sender@, product_id@, ctx.block_height) {
                Some(e) => r == Err::<BurnReceipt, VeriCharmError>(e) && *final(self) == *old(self),
                None => {
                    let i = old(self).product_index(product_id@);
                    &&& r is Ok
                    &&& final(self).same_but_products(old(self))
                    &&& final(self).products@ == old(self).products@.update(i, CharmToken { burned: true, ..old(self).products@[i] })
                    &&& r->Ok_0.product_id@ == product_id@
                    &&& r->Ok_0.burner@ == ctx.sender@
                    &&& r->Ok_0.burn_time == ctx.block_height
                    &&& (burn_reason == BurnReason::RaffleEntry) == r->Ok_0.raffle_entry.is_some()
                    &&& r->Ok_0.raffle_entry matches Some(e) ==> {
                        &&& e.participant@ == ctx.sender@
                        &&& e.product_id@ == product_id@
                        &&& e.burn_time == ctx.block_height
                        &&& e.entry_id@ == sha256_of(raffle_preimage(ctx.sender@, product_id@, ctx.block_height))
                    }
                },
            },
    {
        let idx = match self.find_product(&product_id) {
            None => return Err(VeriCharmError::ProductNotFound),
            Some(i) => i,
        };
        if self.products[idx].current_owner != ctx.sender {
            return Err(VeriCharmError::NotTokenOwner);
        }
        if self.products[idx].burned {
            return Err(VeriCharmError::TokenBurned);
        }
        if self.products[idx].is_in_warranty(ctx.block_height) {
            return Err(VeriCharmError::WarrantyActive);
        }
        if self.has_live_beam(&product_id) {
            return Err(VeriCharmError::BeamActive);
        }
        let ghost pre = *self;
        let mut tok = self.products.remove(idx);
        tok.burned = true;
        self.products.insert(idx, tok);
        proof {
            let i = idx as int;
            assert(self.products@ =~= pre.products@.update(i, tok));
            assert(forall|j: int| 0 <= j < self.products@.len() && j != i ==> self.products@[j] == pre.products@[j]);
            assert(self.products@[i].id == pre.products@[i].id);
            assert forall|j: int| 0 <= j < pre.products@.len() implies
                self.products@[j].id == pre.products@[j].id
                && self.products@[j].manufacturer == pre.products@[j].manufacturer by {
                assert(self.products@[j].id == pre.products@[j].id);
            }
            assert(self.manufacturers == pre.manufacturers);
            assert forall|a: Seq<char>| pre.has_manufacturer(a) implies self.has_manufacturer(a)
                && pre.manufacturer(a).products_minted <= self.manufacturer(a).products_minted by {
                let j = pre.manufacturer_index(a);
                assert(self.manufacturers@[j].address@ == a);
            }
            lemma_ids_stay_spent(pre, *self);
        }
        let raffle_entry = match burn_reason {
            BurnReason::RaffleEntry => {
                let mut pre_image: Vec<u8> = Vec::new();
                append_text(&mut pre_image, &ctx.sender);
                append_text(&mut pre_image, &product_id);
                push_be_bytes(&mut pre_image, ctx.block_height);
                assert(pre_image@ =~= raffle_preimage(ctx.sender@, product_id@, ctx.block_height));
                Some(RaffleEntry {
                    participant: ctx.sender.clone(),
                    product_id: product_id.clone(),
                    burn_time: ctx.block_height,
                    entry_id: sha256(&pre_image),
                })
            },
            _ => None,
        };
        Ok(BurnReceipt {
            product_id,
            burner: ctx.sender.clone(),
            burn_time: ctx.block_height,
            raffle_entry,
        })
    }

    /// Mints a token for a new product of the calling manufacturer, numbered
    /// by that manufacturer's own sequence.
    pub fn mint_charm(
        &mut self,
        ctx: &Context,
        product_data: ProductData,
        metadata: TokenMetadata,
    ) -> (r: Result<CharmToken, VeriCharmError>)
        requires
            old(self).wf(),
        ensures
            final(self).wf(),
            match old(self).mint_check(ctx.sender@) {
                Some(e) => r == Err::<CharmToken, VeriCharmError>(e) && *final(self) == *old(self),
                None => {
                    let m = old(self).manufacturer(ctx.sender@);
                    let n = m.products_minted + 1;
                    let t = final(self).products@.last();
                    &&& r is Ok
                    &&& final(self).total_minted == old(self).total_minted + 1
                    &&& final(self).products@.len() == old(self).products@.len() + 1
                    &&& final(self).products@.drop_last() == old(self).products@
                    &&& is_fresh_mint(t, ctx.sender@, n as nat, ctx.block_height, product_data, metadata)
                    &&& is_fresh_mint(r->Ok_0, ctx.sender@, n as nat, ctx.block_height, product_data, metadata)
                    &&& r->Ok_0.id == t.id
                    &&& forall|i: int| 0 <= i < old(self).products@.len() ==> #[trigger] old(self).products@[i].id@ != t.id@
                    &&& final(self).has_manufacturer(ctx.sender@)
                    &&& final(self).manufacturer(ctx.sender@) == (Manufacturer { products_minted: n as u64, ..m })
                    &&& forall|a: Seq<char>| a != ctx.sender@ ==> (final(self).has_manufacturer(a) == old(self).has_manufacturer(a))
                        && (old(self).has_manufacturer(a) ==> final(self).manufacturer(a) == old(self).manufacturer(a))
                    &&& final(self).retailers == old(self).retailers
                    &&& final(self).beam_records == old(self).beam_records
                },
            },
    {
        let mi = match self.find_manufacturer(&ctx.sender) {
            None => return Err(VeriCharmError::UnauthorizedManufacturer),
            Some(i) => i,
        };
        if !self.manufacturers[mi].verified {
            return Err(VeriCharmError::ManufacturerNotVerified);
        }
        if self.total_minted == u64::MAX {
            return Err(VeriCharmError::MintLimitReached);
        }
        let ghost pre = *self;
        proof {
            lemma_next_id_is_fresh(pre, ctx.sender@);
        }
        let seq_no = self.manufacturers[mi].products_minted + 1;
        self.total_minted = self.total_minted + 1;
        let product_id = format_product_id(&ctx.sender, seq_no);
        let stored = CharmToken {
            id: product_id.clone(),
            manufacturer: ctx.sender.clone(),
            product_data: product_data.duplicate(),
            metadata: metadata.duplicate(),
            current_owner: ctx.sender.clone(),
            mint_time: ctx.block_height,
            warranty_period: WARRANTY_PERIOD,
            burned: false,
            transfer_history: Vec::new(),
            zk_proof: None,
        };
        let token = CharmToken {
            id: product_id,
            manufacturer: ctx.sender.clone(),
            product_data,
            metadata,
            current_owner: ctx.sender.clone(),
            mint_time: ctx.block_height,
            warranty_period: WARRANTY_PERIOD,
            burned: false,
            transfer_history: Vec::new(),
            zk_proof: None,
        };
        self.products.push(stored);
        let mut m = self.manufacturers.remove(mi);
        m.products_minted = seq_no;
        self.manufacturers.insert(mi, m);
        proof {
            let p = pre.products@.len() as int;
            assert(self.products@.drop_last() =~= pre.products@);
            assert(self.manufacturers@ =~= pre.manufacturers@.update(mi as int, m));
            assert(pre.manufacturers@[mi as int].address@ == ctx.sender@);
            assert(pre.manufacturer_index(ctx.sender@) == mi);
            assert(stored.consistent());
            assert(self.manufacturers@[mi as int].address@ == ctx.sender@);
            let k = self.manufacturer_index(ctx.sender@);
            assert(self.manufacturers@[k].address@ == ctx.sender@);
            assert forall|a: Seq<char>| a != ctx.sender@ implies (self.has_manufacturer(a) == pre.has_manufacturer(a))
                && (pre.has_manufacturer(a) ==> self.manufacturer(a) == pre.manufacturer(a)) by {
                if pre.has_manufacturer(a) {
                    let j = pre.manufacturer_index(a);
                    assert(self.manufacturers@[j] == pre.manufacturers@[j]);
                    let j2 = self.manufacturer_index(a);
                    assert(self.manufacturers@[j2].address@ == a);
                }
                if self.has_manufacturer(a) {
                    let j = self.manufacturer_index(a);
                    assert(pre.manufacturers@[j].address@ == a);
                }
            }
            assert forall|j: int| 0 <= j < p implies
                self.products@[j].id == pre.products@[j].id
                && self.products@[j].manufacturer == pre.products@[j].manufacturer by {
                assert(self.products@[j] == pre.products@[j]);
            }
            lemma_ids_stay_spent(pre, *self);
            assert(self.products@[p] == stored);
            assert(self.id_spent(stored));
            assert forall|i: int, j: int|
                0 <= i < self.products@.len() && 0 <= j < self.products@.len() && i != j
                    implies #[trigger] self.products@[i].id@ != #[trigger] self.products@[j].id@ by {
                if i < p && j < p {
                    assert(self.products@[i] == pre.products@[i]);
                    assert(self.products@[j] == pre.products@[j]);
                } else if i < p {
                    assert(self.products@[i] == pre.products@[i]);
                } else if j < p {
                    assert(self.products@[j] == pre.products@[j]);
                }
            }
            assert forall|i: int| 0 <= i < self.products@.len() implies self.id_spent(#[trigger] self.products@[i]) by {
                if i < p {
                } else {
                    assert(self.products@[i] == stored);
                }
            }
        }
        Ok(token)
    }
}


/// An event that drives a beam forward.
#[derive(Clone, Debug)]
pub enum BeamEvent {
    /// The lock transaction was confirmed on the source chain.
    LockConfirmed(Vec<u8>),
    /// The unlock transaction was confirmed on the target chain.
    UnlockConfirmed(Vec<u8>),
    /// The source chain reached the given height.
    HeightReached(u64),
}

/// The status a beam in `status` with deadline `timeout` moves to on `event`,
/// if the transition is defined.
pub open spec fn beam_step(status: BeamStatus, timeout: u64, event: BeamEvent) -> Option<BeamStatus> {
    match (status, event) {
        (BeamStatus::Initiated, BeamEvent::LockConfirmed(_)) => Some(BeamStatus::Locked),
        (BeamStatus::Locked, BeamEvent::UnlockConfirmed(_)) => Some(BeamStatus::Unlocked),
        (BeamStatus::Initiated, BeamEvent::HeightReached(h)) => if h >= timeout { Some(BeamStatus::TimedOut) } else { None },
        _ => None,
    }
}

fn next_beam_status(status: BeamStatus, timeout: u64, event: &BeamEvent) -> (r: Option<BeamStatus>)
    ensures
        r == beam_step(status, timeout, *event),
{
    match (status, event) {
        (BeamStatus::Initiated, BeamEvent::LockConfirmed(_)) => Some(BeamStatus::Locked),
        (BeamStatus::Locked, BeamEvent::UnlockConfirmed(_)) => Some(BeamStatus::Unlocked),
        (BeamStatus::Initiated, BeamEvent::HeightReached(h)) => if *h >= timeout {
            Some(BeamStatus::TimedOut)
        } else {
            None
        },
        _ => None,
    }
}

/// The record `rec` moved to status `s` by `event`, with the confirmed
/// transaction hash that the event carries.
pub open spec fn beam_after(rec: CrossChainBeam, s: BeamStatus, event: BeamEvent) -> CrossChainBeam {
    match event {
        BeamEvent::LockConfirmed(tx) => CrossChainBeam { status: s, lock_tx_hash: Some(tx), ..rec },
        BeamEvent::UnlockConfirmed(tx) => CrossChainBeam { status: s, unlock_tx_hash: Some(tx), ..rec },
        BeamEvent::HeightReached(_) => CrossChainBeam { status: s, ..rec },
    }
}

impl VeriCharmContract {
    /// Checks a product's authenticity. `proof_accepted` is the external
    /// verifier's verdict on the supplied proof; it is not consulted when no
    /// proof is supplied.
    pub fn verify_product(
        &self,
        ctx: &Context,
        product_id: String,
        request: &ProofRequest,
        proof_accepted: bool,
    ) -> (r: Result<VerificationResult, VeriCharmError>)
        requires
            self.wf(),
        ensures
            match self.verify_check(product_id@, request.zk_proof.is_some(), proof_accepted) {
                Some(e) => r == Err::<VerificationResult, VeriCharmError>(e),
                None => r is Ok && self.verification_of(r->Ok_0, product_id@, ctx.block_height),
            },
    {
        let idx = match self.find_product(&product_id) {
            None => return Err(VeriCharmError::ProductNotFound),
            Some(i) => i,
        };
        if request.zk_proof.is_some() && !proof_accepted {
            return Err(VeriCharmError::InvalidProof);
        }
        let tok = &self.products[idx];
        let mi = match self.find_manufacturer(&tok.manufacturer) {
            None => return Err(VeriCharmError::ManufacturerNotFound),
            Some(i) => i,
        };
        if !self.manufacturers[mi].verified {
            return Err(VeriCharmError::ManufacturerNotVerified);
        }
        Ok(VerificationResult {
            product_id,
            is_authentic: tok.verify_supply_chain(),
            manufacturer: tok.manufacturer.clone(),
            current_owner: tok.current_owner.clone(),
            warranty_valid: tok.is_in_warranty(ctx.block_height),
            verification_time: ctx.block_height,
        })
    }

    /// `v` reports the stored state of product `id` at height `now`.
    pub open spec fn verification_of(&self, v: VerificationResult, id: Seq<char>, now: u64) -> bool {
        let t = self.token(id);
        &&& v.product_id@ == id
        &&& v.is_authentic == t.supply_chain_intact()
        &&& v.manufacturer@ == t.manufacturer@
        &&& v.current_owner@ == t.current_owner@
        &&& v.warranty_valid == t.in_warranty_at(now)
        &&& v.verification_time == now
    }

    /// Starts relocating a product to `target_chain`: records a beam in state
    /// `Initiated` and describes the lock to submit on this chain.
    pub fn cross_chain_beam(
        &mut self,
        ctx: &Context,
        product_id: String,
        target_chain: String,
        beam_data: &BeamData,
    ) -> (r: Result<BeamReceipt, VeriCharmError>)
        requires
            old(self).wf(),
            ctx.block_height <= u64::MAX - BEAM_TIMEOUT_BLOCKS,
        ensures
            final(self).wf(),
            match old(self).beam_check(ctx.sender@, product_id@) {
                Some(e) => r == Err::<BeamReceipt, VeriCharmError>(e) && *final(self) == *old(self),
                None => {
                    let b = final(self).beam_records@.last();
                    let id = sha256_of(beam_preimage(product_id@, target_chain@, ctx.block_height));
                    &&& r is Ok
                    &&& r->Ok_0.beam_id@ == id
                    &&& r->Ok_0.lock_script.beam_id@ == id
                    &&& r->Ok_0.lock_script.target_chain@ == target_chain@
                    &&& r->Ok_0.timeout_height == ctx.block_height + BEAM_TIMEOUT_BLOCKS
                    &&& final(self).products == old(self).products
                    &&& final(self).manufacturers == old(self).manufacturers
                    &&& final(self).retailers == old(self).retailers
                    &&& final(self).total_minted == old(self).total_minted
                    &&& final(self).beam_records@.drop_last() == old(self).beam_records@
                    &&& final(self).beam_records@.len() == old(self).beam_records@.len() + 1
                    &&& b.beam_id@ == id
                    &&& b.product_id@ == product_id@
                    &&& b.source_chain@ == ctx.chain_id@
                    &&& b.target_chain@ == target_chain@
                    &&& b.sender@ == ctx.sender@
                    &&& b.beam_time == ctx.block_height
                    &&& b.timeout_height == ctx.block_height + BEAM_TIMEOUT_BLOCKS
                    &&& b.status == BeamStatus::Initiated
                    &&& b.lock_tx_hash.is_none()
                    &&& b.unlock_tx_hash.is_none()
                },
            },
    {
        let idx = match self.find_product(&product_id) {
            None => return Err(VeriCharmError::ProductNotFound),
            Some(i) => i,
        };
        if self.products[idx].current_owner != ctx.sender {
            return Err(VeriCharmError::NotTokenOwner);
        }
        if self.products[idx].burned {
            return Err(VeriCharmError::TokenBurned);
        }
        if self.has_live_beam(&product_id) {
            return Err(VeriCharmError::BeamActive);
        }
        let mut pre_image: Vec<u8> = Vec::new();
        append_text(&mut pre_image, &product_id);
        append_text(&mut pre_image, &target_chain);
        push_be_bytes(&mut pre_image, ctx.block_height);
        assert(pre_image@ =~= beam_preimage(product_id@, target_chain@, ctx.block_height));
        let beam_id = sha256(&pre_image);
        let timeout_height = ctx.block_height + BEAM_TIMEOUT_BLOCKS;
        let record = CrossChainBeam {
            beam_id: copy_bytes(&beam_id),
            product_id,
            source_chain: ctx.chain_id.clone(),
            target_chain: target_chain.clone(),
            sender: ctx.sender.clone(),
            beam_time: ctx.block_height,
            timeout_height,
            status: BeamStatus::Initiated,
            lock_tx_hash: None,
            unlock_tx_hash: None,
        };
        let ghost pre = *self;
        self.beam_records.push(record);
        proof {
            lemma_wf_ignores_beams(pre, *self);
        }
        assert(self.beam_records@.drop_last() =~= old(self).beam_records@);
        Ok(BeamReceipt {
            beam_id: copy_bytes(&beam_id),
            lock_script: LockScript { beam_id, target_chain },
            timeout_height,
        })
    }

    /// Drives the live beam of a product (one not yet unlocked or timed out)
    /// through its state machine: `Initiated` to `Locked` on a confirmed lock,
    /// `Locked` to `Unlocked` on a confirmed unlock, `Initiated` to `TimedOut`
    /// once the deadline height is reached. An unlocked beam keeps the product
    /// frozen on this chain for good.
    #[verifier::rlimit(60)]
    pub fn advance_beam(&mut self, product_id: &String, event: BeamEvent) -> (r: Result<BeamStatus, VeriCharmError>)
        requires
            old(self).wf(),
        ensures
            final(self).wf(),
            final(self).products == old(self).products,
            final(self).manufacturers == old(self).manufacturers,
            final(self).retailers == old(self).retailers,
            final(self).total_minted == old(self).total_minted,
            r is Err ==> *final(self) == *old(self),
            (r == Err::<BeamStatus, VeriCharmError>(VeriCharmError::BeamNotFound)) <==> !old(self).has_open_beam(product_id@),
            old(self).has_open_beam(product_id@) ==> {
                let b = old(self).open_beam_index(product_id@);
                let rec = old(self).beam_records@[b];
                match beam_step(rec.status, rec.timeout_height, event) {
                    None => r == Err::<BeamStatus, VeriCharmError>(VeriCharmError::InvalidBeamTransition)
                        && *final(self) == *old(self),
                    Some(s) => {
                        &&& r == Ok::<BeamStatus, VeriCharmError>(s)
                        &&& final(self).beam_records@ == old(self).beam_records@.update(b, beam_after(rec, s, event))
                    },
                }
            },
    {
        let b = match self.find_open_beam(product_id) {
            None => return Err(VeriCharmError::BeamNotFound),
            Some(b) => b,
        };
        let next = match next_beam_status(self.beam_records[b].status, self.beam_records[b].timeout_height, &event) {
            None => return Err(VeriCharmError::InvalidBeamTransition),
            Some(s) => s,
        };
        let ghost pre = *self;
        let ghost ev = event;
        let mut rec = self.beam_records.remove(b);
        match event {
            BeamEvent::LockConfirmed(tx) => {
                rec.lock_tx_hash = Some(tx);
            },
            BeamEvent::UnlockConfirmed(tx) => {
                rec.unlock_tx_hash = Some(tx);
            },
            BeamEvent::HeightReached(_) => {},
        }
        rec.status = next;
        self.beam_records.insert(b, rec);
        assert(rec == beam_after(pre.beam_records@[b as int], next, ev));
        assert(self.beam_records@ =~= pre.beam_records@.update(b as int, rec));
        proof {
            lemma_wf_ignores_beams(pre, *self);
        }
        Ok(next)
    }

    fn find_open_beam(&self, id: &String) -> (r: Option<usize>)
        ensures
            r.is_some() == self.has_open_beam(id@),
            r.is_some() ==> r.unwrap() == self.open_beam_index(id@),
            r.is_some() ==> self.is_open_beam_at(r.unwrap() as int, id@),
    {
        let mut b: usize = 0;
        while b < self.beam_records.len()
            invariant
                0 <= b <= self.beam_records@.len(),
                forall|j: int| 0 <= j < b ==> !#[trigger] self.is_open_beam_at(j, id@),
            decreases self.beam_records@.len() - b,
        {
            let st = self.beam_records[b].status;
            if self.beam_records[b].product_id == *id && (st == BeamStatus::Initiated || st == BeamStatus::Locked) {
                assert(self.is_open_beam_at(b as int, id@));
                let ghost k = self.open_beam_index(id@);
                assert(self.is_open_beam_at(k, id@));
                assert(!(k < b as int));
                assert(!((b as int) < k));
                return Some(b);
            }
            b = b + 1;
        }
        assert forall|j: int| !#[trigger] self.is_open_beam_at(j, id@) by {
            if 0 <= j < self.beam_records@.len() {
                assert(j < b);
            }
        }
        None
    }

    pub open spec fn is_open_beam_at(&self, b: int, id: Seq<char>) -> bool {
        &&& 0 <= b < self.beam_records@.len()
        &&& self.beam_records@[b].product_id@ == id
        &&& (self.beam_records@[b].status == BeamStatus::Initiated || self.beam_records@[b].status == BeamStatus::Locked)
    }

    /// Some beam of the product is initiated or locked.
    pub open spec fn has_open_beam(&self, id: Seq<char>) -> bool {
        exists|b: int| #[trigger] self.is_open_beam_at(b, id)
    }

    /// The first open beam of the product.
    pub open spec fn open_beam_index(&self, id: Seq<char>) -> int {
        choose|b: int| #[trigger] self.is_open_beam_at(b, id) && forall|j: int| 0 <= j < b ==> !#[trigger] self.is_open_beam_at(j, id)
    }
}


/// In every well-formed state, as mint and every other operation keep it, no
/// two stored products share an identifier.
pub proof fn lemma_product_ids_distinct(s: VeriCharmContract, i: int, j: int)
    requires
        s.wf(),
        0 <= i < s.products@.len(),
        0 <= j < s.products@.len(),
        i != j,
    ensures
        s.products@[i].id@ != s.products@[j].id@,
{
}

/// A burned product can be neither transferred nor burned again; its owner
/// is refused with `TokenBurned`.
pub proof fn lemma_burn_is_final(s: VeriCharmContract, sender: Seq<char>, id: Seq<char>, now: u64)
    requires
        s.has_product(id),
        s.token(id).burned,
    ensures
        s.transfer_check(sender, id).is_some(),
        s.burn_check(sender, id, now).is_some(),
        s.token(id).current_owner@ == sender ==> s.transfer_check(sender, id) == Some(VeriCharmError::TokenBurned)
            && s.burn_check(sender, id, now) == Some(VeriCharmError::TokenBurned),
{
}

/// For the owner of a live, unbeamed product, burning fails exactly while the
/// warranty runs, and succeeds once it has ended.
pub proof fn lemma_burn_follows_warranty(s: VeriCharmContract, sender: Seq<char>, id: Seq<char>, now: u64)
    requires
        s.has_product(id),
        s.token(id).current_owner@ == sender,
        !s.token(id).burned,
        !s.beam_holds(id),
    ensures
        (now as int) < s.token(id).mint_time as int + s.token(id).warranty_period as int
            ==> s.burn_check(sender, id, now) == Some(VeriCharmError::WarrantyActive),
        (now as int) >= s.token(id).mint_time as int + s.token(id).warranty_period as int
            ==> s.burn_check(sender, id, now).is_none(),
{
}

/// Two verifications of the same product in the same state and at the same
/// height report the same authenticity and warranty status.
pub proof fn lemma_verification_repeatable(
    s: VeriCharmContract,
    id: Seq<char>,
    now: u64,
    first: VerificationResult,
    second: VerificationResult,
)
    requires
        s.verification_of(first, id, now),
        s.verification_of(second, id, now),
    ensures
        first.is_authentic == second.is_authentic,
        first.warranty_valid == second.warranty_valid,
{
}

impl Default for VeriCharmContract {
    fn default() -> (r: Self)
        ensures
            r.wf(),
            r.products@.len() == 0,
            r.manufacturers@.len() == 0,
            r.beam_records@.len() == 0,
            r.total_minted == 0,
    {
        VeriCharmContract::new()
    }
}

/// Well-formedness does not depend on the beam and retailer records.
proof fn lemma_wf_ignores_beams(pre: VeriCharmContract, post: VeriCharmContract)
    requires
        pre.wf(),
        post.products == pre.products,
        post.manufacturers == pre.manufacturers,
        post.total_minted == pre.total_minted,
    ensures
        post.wf(),
{
    assert forall|i: int| 0 <= i < post.products@.len() implies post.id_spent(#[trigger] post.products@[i]) by {
        assert(pre.id_spent(pre.products@[i]));
    }
}

/// Ids stay spent while the tokens keep their id and manufacturer and no
/// manufacturer's counter goes back.
proof fn lemma_ids_stay_spent(pre: VeriCharmContract, post: VeriCharmContract)
    requires
        pre.wf(),
        pre.products@.len() <= post.products@.len(),
        forall|j: int| 0 <= j < pre.products@.len() ==> post.products@[j].id == pre.products@[j].id
            && post.products@[j].manufacturer == pre.products@[j].manufacturer,
        forall|a: Seq<char>| pre.has_manufacturer(a) ==> post.has_manufacturer(a)
            && pre.manufacturer(a).products_minted <= post.manufacturer(a).products_minted,
    ensures
        forall|j: int| 0 <= j < pre.products@.len() ==> post.id_spent(#[trigger] post.products@[j]),
{
    assert forall|j: int| 0 <= j < pre.products@.len() implies post.id_spent(#[trigger] post.products@[j]) by {
        let t = pre.products@[j];
        assert(pre.id_spent(t));
        let k = choose|k: nat| 1 <= k <= pre.manufacturer(t.manufacturer@).products_minted
            && t.id@ == #[trigger] product_id_for(t.manufacturer@, k);
        assert(post.products@[j].id@ == product_id_for(post.products@[j].manufacturer@, k));
    }
}

/// The identifier that a manufacturer's next mint gets is held by no stored
/// product.
pub proof fn lemma_next_id_is_fresh(s: VeriCharmContract, sender: Seq<char>)
    requires
        s.wf(),
        s.has_manufacturer(sender),
    ensures
        forall|i: int| 0 <= i < s.products@.len() ==> #[trigger] s.products@[i].id@
            != product_id_for(sender, s.manufacturer(sender).products_minted as nat + 1),
{
    assert forall|i: int| 0 <= i < s.products@.len() implies #[trigger] s.products@[i].id@
        != product_id_for(sender, s.manufacturer(sender).products_minted as nat + 1) by {
        let t = s.products@[i];
        assert(s.id_spent(t));
        let k = choose|k: nat| 1 <= k <= s.manufacturer(t.manufacturer@).products_minted
            && t.id@ == #[trigger] product_id_for(t.manufacturer@, k);
        if t.id@ == product_id_for(sender, s.manufacturer(sender).products_minted as nat + 1) {
            lemma_product_id_injective(t.manufacturer@, k, sender, s.manufacturer(sender).products_minted as nat + 1);
        }
    }
}

} // verus!
