//! Registration and resolution handlers for NFT drops.
//!
//! `nft_on_transfer` admits an incoming token into a drop after validating it
//! against the drop's expected counterparty, length bound and inventory.
//! `nft_resolve_refund` and `nft_resolve_transfer` reconcile the outcome of a
//! previously-initiated asynchronous transfer; the platform's success/failure
//! signal arrives as a plain argument, and the compensating transfer that the
//! single-transfer path decides on is returned as a plain value for the
//! runtime to issue.

use vstd::prelude::*;
use vstd::string::StrSliceExecFns;

use crate::drops::Drop;
use crate::drops::DropType;
use crate::drops::DropTypeView;
use crate::drops::DropView;
use crate::drops::NFTDataView;
use crate::drops::RegisterError;
use crate::drops::ResolveError;
use crate::ids::has_id;
use crate::ids::lemma_remove_ids_idempotent;
use crate::ids::lemma_remove_ids_props;
use crate::ids::remove_all_ids;
use crate::ids::remove_ids;
use crate::store::DropStore;

verus! {

/// Fixed gas budget attached to a compensating NFT transfer.
pub const MIN_GAS_FOR_SIMPLE_NFT_TRANSFER: u64 = 10_000_000_000_000;

/// A compensating NFT transfer for the runtime to issue: call `nft_transfer`
/// on `contract`, sending `token_id` to `receiver`, with the given gas budget
/// and attached deposit. Fire-and-forget: its own outcome is not tracked.
#[derive(Debug, PartialEq, Eq)]
pub struct NftTransferAction {
    pub contract: String,
    pub receiver: String,
    pub token_id: String,
    pub approval_id: Option<u64>,
    pub memo: Option<String>,
    pub gas: u64,
    pub deposit: u128,
}

/// Mathematical model of [`NftTransferAction`].
#[verifier::ext_equal]
pub struct NftTransferActionView {
    pub contract: Seq<char>,
    pub receiver: Seq<char>,
    pub token_id: Seq<char>,
    pub approval_id: Option<u64>,
    pub memo: Option<Seq<char>>,
    pub gas: u64,
    pub deposit: u128,
}

impl View for NftTransferAction {
    type V = NftTransferActionView;

    open spec fn view(&self) -> NftTransferActionView {
        NftTransferActionView {
            contract: self.contract@,
            receiver: self.receiver@,
            token_id: self.token_id@,
            approval_id: self.approval_id,
            memo: match self.memo {
                Some(ref m) => Some(m@),
                None => None,
            },
            gas: self.gas,
            deposit: self.deposit,
        }
    }
}

/// The one compensating transfer the single-transfer path owes on failure:
/// the token goes back to its original sender on the recorded contract, with
/// the minimal fixed gas budget, a nominal deposit and a human-readable memo.
pub open spec fn is_refund_action(
    a: NftTransferActionView,
    token_id: Seq<char>,
    token_sender: Seq<char>,
    token_contract: Seq<char>,
) -> bool {
    &&& a.contract == token_contract
    &&& a.receiver == token_sender
    &&& a.token_id == token_id
    &&& a.approval_id is None
    &&& a.memo == Some("Linkdropped NFT Refund"@)
    &&& a.gas == MIN_GAS_FOR_SIMPLE_NFT_TRANSFER
    &&& a.deposit == 1u128
}

/// The contract's state: its own account identity (resolution callbacks are
/// restricted to self-invocation) and the drop store.
pub struct DropZone {
    pub contract_account: String,
    pub drop_for_id: DropStore,
}

/// Mathematical model of [`DropZone`].
#[verifier::ext_equal]
pub struct DropZoneView {
    pub contract_account: Seq<char>,
    pub drops: Map<u128, DropView>,
}

impl View for DropZone {
    type V = DropZoneView;

    open spec fn view(&self) -> DropZoneView {
        DropZoneView {
            contract_account: self.contract_account@,
            drops: self.drop_for_id.as_map(),
        }
    }
}

/// The claim counter after one admitted registration: incremented by one,
/// then clamped down to the drop's quota.
pub open spec fn clamped_claims(d: DropView) -> int {
    if d.num_claims_registered + 1 > d.claim_cap() {
        d.claim_cap()
    } else {
        d.num_claims_registered + 1
    }
}

/// The drop after an admitted registration: the identifier joins the
/// inventory and the claim counter is incremented-then-clamped.
pub open spec fn registered_drop(d: DropView, token_id: Seq<char>) -> DropView {
    DropView {
        num_claims_registered: clamped_claims(d) as u64,
        drop_type: DropTypeView::Nft(
            NFTDataView { token_ids: d.nft().token_ids.push(token_id), ..d.nft() },
        ),
        ..d
    }
}

impl DropZoneView {
    /// The registration outcome, checked in order: the drop must exist, hold
    /// an NFT payload, record the sender/contract pair the token came from,
    /// permit the identifier's length, and not hold the identifier yet. The
    /// acknowledgment `false` tells the caller the asset is retained.
    pub open spec fn register_check(
        self,
        drop_id: u128,
        token_id: Seq<char>,
        sender: Seq<char>,
        contract: Seq<char>,
    ) -> Result<bool, RegisterError> {
        if !self.drops.contains_key(drop_id) {
            Err(RegisterError::UnknownDrop)
        } else if !self.drops[drop_id].is_nft() {
            Err(RegisterError::AssetKindMismatch)
        } else if !(self.drops[drop_id].nft().nft_sender == sender
            && self.drops[drop_id].nft().nft_contract == contract) {
            Err(RegisterError::SenderContractMismatch)
        } else if token_id.len() > self.drops[drop_id].nft().longest_token_id.len() {
            Err(RegisterError::TokenIdTooLong)
        } else if self.drops[drop_id].nft().token_ids.contains(token_id) {
            Err(RegisterError::DuplicateTokenId)
        } else {
            Ok(false)
        }
    }

    /// The state after an admitted registration.
    pub open spec fn registered_state(self, drop_id: u128, token_id: Seq<char>) -> DropZoneView {
        DropZoneView {
            drops: self.drops.insert(drop_id, registered_drop(self.drops[drop_id], token_id)),
            ..self
        }
    }

    /// The refund-path resolution outcome: only the contract itself may
    /// resolve, the drop must exist, and reconciling a successful transfer
    /// needs the NFT payload. The `Ok` value echoes the transfer outcome.
    pub open spec fn refund_check(
        self,
        caller: Seq<char>,
        drop_id: u128,
        transfer_succeeded: bool,
    ) -> Result<bool, ResolveError> {
        if caller != self.contract_account {
            Err(ResolveError::Unauthorized)
        } else if !self.drops.contains_key(drop_id) {
            Err(ResolveError::UnknownDrop)
        } else if transfer_succeeded && !self.drops[drop_id].is_nft() {
            Err(ResolveError::AssetKindMismatch)
        } else {
            Ok(transfer_succeeded)
        }
    }

    /// The state after a failed batch transfer is reconciled: the batch size
    /// is re-credited to the drop's claim counter; inventories are untouched.
    pub open spec fn refund_failure_state(self, drop_id: u128, n: int) -> DropZoneView {
        let d = self.drops[drop_id];
        DropZoneView {
            drops: self.drops.insert(
                drop_id,
                DropView { num_claims_registered: (d.num_claims_registered + n) as u64, ..d },
            ),
            ..self
        }
    }

    /// The state after a successful batch transfer is reconciled: every
    /// listed identifier leaves the drop's inventory (absence tolerated);
    /// counters are untouched.
    pub open spec fn refund_success_state(self, drop_id: u128, rm: Seq<Seq<char>>) -> DropZoneView {
        let d = self.drops[drop_id];
        DropZoneView {
            drops: self.drops.insert(
                drop_id,
                DropView {
                    drop_type: DropTypeView::Nft(
                        NFTDataView { token_ids: remove_ids(d.nft().token_ids, rm), ..d.nft() },
                    ),
                    ..d
                },
            ),
            ..self
        }
    }
}

impl DropZone {
    /// Whether the state is well formed: unique drop identifiers and
    /// duplicate-free token inventories.
    pub open spec fn wf(self) -> bool {
        self.drop_for_id.wf()
    }

    /// A contract with no drops yet, under its own account identity.
    pub fn new(contract_account: String) -> (r: DropZone)
        ensures
            r.wf(),
            r@.contract_account == contract_account@,
            r@.drops == Map::<u128, DropView>::empty(),
    {
        DropZone { contract_account, drop_for_id: DropStore::new() }
    }

    /// Registration Handler: admits the incoming token `token_id`, sent by
    /// `sender_id` through the NFT contract `contract_id`, into the drop
    /// under `msg`. Each validation failure rejects the registration with no
    /// state change; on success the identifier joins the drop's inventory and
    /// the claim counter is incremented, then clamped to the drop's quota
    /// (excess assets are retained by the contract, never bounced back). The
    /// acknowledgment `false` tells the caller no further action is owed.
    pub fn nft_on_transfer(
        &mut self,
        token_id: String,
        sender_id: String,
        contract_id: String,
        msg: u128,
    ) -> (r: Result<bool, RegisterError>)
        requires
            old(self).wf(),
            // machine limit: the claim counter is a u64
            old(self)@.register_check(msg, token_id@, sender_id@, contract_id@) is Ok
                ==> old(self)@.drops[msg].num_claims_registered < u64::MAX,
        ensures
            final(self).wf(),
            r == old(self)@.register_check(msg, token_id@, sender_id@, contract_id@),
            r is Err ==> *final(self) == *old(self),
            r is Ok ==> final(self)@ == old(self)@.registered_state(msg, token_id@),
            r is Ok ==> final(self)@.drops[msg].num_claims_registered
                <= final(self)@.drops[msg].claim_cap(),
    {
        let ghost z0 = self@;
        {
            let found = self.drop_for_id.get(msg);
            let d = match found {
                None => {
                    return Err(RegisterError::UnknownDrop);
                },
                Some(d) => d,
            };
            let nft = match &d.drop_type {
                DropType::Nft(n) => n,
                DropType::Simple => {
                    return Err(RegisterError::AssetKindMismatch);
                },
            };
            if !(nft.nft_sender == sender_id && nft.nft_contract == contract_id) {
                return Err(RegisterError::SenderContractMismatch);
            }
            if token_id.as_str().unicode_len() > nft.longest_token_id.as_str().unicode_len() {
                return Err(RegisterError::TokenIdTooLong);
            }
            if has_id(&nft.token_ids, &token_id) {
                return Err(RegisterError::DuplicateTokenId);
            }
        }
        proof {
            assert(z0.register_check(msg, token_id@, sender_id@, contract_id@) == Ok::<
                bool,
                RegisterError,
            >(false));
        }
        let checked_out = self.drop_for_id.checkout(msg);
        let drop = match checked_out {
            Some(d) => d,
            None => vstd::pervasive::unreached(),
        };
        let ghost d0 = drop@;
        let Drop { num_claims_registered, pks, drop_config, drop_type } = drop;
        let mut nft = match drop_type {
            DropType::Nft(n) => n,
            DropType::Simple => vstd::pervasive::unreached(),
        };
        let ghost ids0 = nft.token_ids.deep_view();
        nft.token_ids.push(token_id);
        proof {
            assert(nft.token_ids.deep_view() =~= ids0.push(token_id@));
        }
        proof {
            assert((pks.len() as int) * (drop_config.max_claims_per_key as int) <= (u64::MAX
                as int) * (u64::MAX as int)) by (nonlinear_arith)
                requires
                    0 <= pks.len() <= u64::MAX,
                    0 <= drop_config.max_claims_per_key <= u64::MAX,
            ;
        }
        let cap: u128 = (pks.len() as u128) * (drop_config.max_claims_per_key as u128);
        proof {
            assert(pks.deep_view().len() == pks.len());
            assert(cap == d0.claim_cap());
        }
        let bumped: u128 = (num_claims_registered as u128) + 1;
        let new_claims: u64 = if bumped > cap {
            cap as u64
        } else {
            bumped as u64
        };
        proof {
            assert(new_claims == clamped_claims(d0));
        }
        let new_drop = Drop {
            num_claims_registered: new_claims,
            pks,
            drop_config,
            drop_type: DropType::Nft(nft),
        };
        proof {
            let ids1 = new_drop@.nft().token_ids;
            assert forall|p: int, q: int|
                0 <= p < ids1.len() && 0 <= q < ids1.len() && p != q implies ids1[p] != ids1[q] by {
                if p < ids0.len() && q < ids0.len() {
                    assert(ids0[p] != ids0[q]);
                } else if q == ids0.len() {
                    assert(!ids0.contains(token_id@));
                    assert(ids1[p] == ids0[p]);
                } else {
                    assert(!ids0.contains(token_id@));
                    assert(ids1[q] == ids0[q]);
                }
            }
            assert(new_drop@.wf());
            assert(new_drop@ =~= registered_drop(d0, token_id@));
        }
        self.drop_for_id.insert(msg, new_drop);
        proof {
            assert(self@ =~= z0.registered_state(msg, token_id@));
        }
        Ok(false)
    }

    /// Resolution Handler, refund path: reconciles the settled outcome of a
    /// previously-initiated batch transfer of `token_ids` out of the drop
    /// under `drop_id`. On failure the batch size is re-credited to the
    /// drop's claim counter and the inventory is untouched; on success every
    /// listed identifier leaves the inventory (an absent one is tolerated, to
    /// keep resolution idempotent) and counters are untouched. The state is
    /// re-read fresh here: it may have been mutated by registrations that
    /// interleaved during the transfer's unbounded settling delay. Restricted
    /// to self-invocation.
    pub fn nft_resolve_refund(
        &mut self,
        caller: String,
        drop_id: u128,
        token_ids: Vec<String>,
        transfer_succeeded: bool,
    ) -> (r: Result<bool, ResolveError>)
        requires
            old(self).wf(),
            // machine limit: the claim counter is a u64
            old(self)@.refund_check(caller@, drop_id, transfer_succeeded) is Ok
                && !transfer_succeeded ==> old(self)@.drops[drop_id].num_claims_registered
                + token_ids@.len() <= u64::MAX,
        ensures
            final(self).wf(),
            r == old(self)@.refund_check(caller@, drop_id, transfer_succeeded),
            r is Err ==> *final(self) == *old(self),
            r == Ok::<bool, ResolveError>(false) ==> final(self)@ == old(
                self,
            )@.refund_failure_state(drop_id, token_ids@.len() as int),
            r == Ok::<bool, ResolveError>(true) ==> final(self)@ == old(
                self,
            )@.refund_success_state(drop_id, token_ids.deep_view()),
    {
        let ghost z0 = self@;
        if !(caller == self.contract_account) {
            return Err(ResolveError::Unauthorized);
        }
        if !transfer_succeeded {
            let checked_out = self.drop_for_id.checkout(drop_id);
            let mut drop = match checked_out {
                Some(d) => d,
                None => {
                    return Err(ResolveError::UnknownDrop);
                },
            };
            let ghost d0 = drop@;
            drop.num_claims_registered = drop.num_claims_registered + (token_ids.len() as u64);
            self.drop_for_id.insert(drop_id, drop);
            proof {
                assert(drop@ =~= DropView {
                    num_claims_registered: (d0.num_claims_registered + token_ids@.len()) as u64,
                    ..d0
                });
                assert(self@ =~= z0.refund_failure_state(drop_id, token_ids@.len() as int));
            }
            return Ok(false);
        }
        {
            let found = self.drop_for_id.get(drop_id);
            match found {
                None => {
                    return Err(ResolveError::UnknownDrop);
                },
                Some(d) => {
                    match &d.drop_type {
                        DropType::Nft(_) => {},
                        DropType::Simple => {
                            return Err(ResolveError::AssetKindMismatch);
                        },
                    }
                },
            }
        }
        let checked_out = self.drop_for_id.checkout(drop_id);
        let drop = match checked_out {
            Some(d) => d,
            None => vstd::pervasive::unreached(),
        };
        let ghost d0 = drop@;
        let Drop { num_claims_registered, pks, drop_config, drop_type } = drop;
        let mut nft = match drop_type {
            DropType::Nft(n) => n,
            DropType::Simple => vstd::pervasive::unreached(),
        };
        let ghost ids0 = nft.token_ids.deep_view();
        remove_all_ids(&mut nft.token_ids, &token_ids);
        let new_drop = Drop {
            num_claims_registered,
            pks,
            drop_config,
            drop_type: DropType::Nft(nft),
        };
        proof {
            lemma_remove_ids_props(ids0, token_ids.deep_view());
            assert(new_drop@.wf());
            assert(new_drop@ =~= DropView {
                drop_type: DropTypeView::Nft(
                    NFTDataView {
                        token_ids: remove_ids(d0.nft().token_ids, token_ids.deep_view()),
                        ..d0.nft()
                    },
                ),
                ..d0
            });
        }
        self.drop_for_id.insert(drop_id, new_drop);
        proof {
            assert(self@ =~= z0.refund_success_state(drop_id, token_ids.deep_view()));
        }
        Ok(true)
    }

    /// Resolution Handler, single-transfer path: reconciles the settled
    /// outcome of one claimant's transfer. Success needs nothing; failure
    /// decides exactly one compensating transfer of the token back to its
    /// original sender, returned for the runtime to issue. State is never
    /// mutated. Restricted to self-invocation.
    pub fn nft_resolve_transfer(
        &mut self,
        caller: String,
        token_id: String,
        token_sender: String,
        token_contract: String,
        transfer_succeeded: bool,
    ) -> (r: Result<(bool, Option<NftTransferAction>), ResolveError>)
        requires
            old(self).wf(),
        ensures
            final(self).wf(),
            *final(self) == *old(self),
            caller@ != old(self)@.contract_account ==> r == Err::<
                (bool, Option<NftTransferAction>),
                ResolveError,
            >(ResolveError::Unauthorized),
            caller@ == old(self)@.contract_account && transfer_succeeded ==> r == Ok::<
                (bool, Option<NftTransferAction>),
                ResolveError,
            >((true, None)),
            caller@ == old(self)@.contract_account && !transfer_succeeded ==> r is Ok
                && r->Ok_0.0 == false && r->Ok_0.1 is Some && is_refund_action(
                r->Ok_0.1->Some_0@,
                token_id@,
                token_sender@,
                token_contract@,
            ),
    {
        if !(caller == self.contract_account) {
            return Err(ResolveError::Unauthorized);
        }
        if transfer_succeeded {
            return Ok((true, None));
        }
        let action = NftTransferAction {
            contract: token_contract,
            receiver: token_sender,
            token_id,
            approval_id: None,
            memo: Some("Linkdropped NFT Refund".to_owned()),
            gas: MIN_GAS_FOR_SIMPLE_NFT_TRANSFER,
            deposit: 1,
        };
        Ok((false, Some(action)))
    }
}

/// Law: a valid registration grows the drop's inventory by exactly the new
/// identifier and raises its claim counter by exactly one — unless the
/// incremented counter would pass the drop's quota, in which case the counter
/// is clamped to the quota (the asset is retained either way). Other drops
/// are untouched.
pub proof fn lemma_registration_delta(z: DropZoneView, drop_id: u128, token_id: Seq<char>)
    requires
        z.drops.contains_key(drop_id),
        z.drops[drop_id].is_nft(),
        z.drops[drop_id].wf(),
        !z.drops[drop_id].nft().token_ids.contains(token_id),
        z.drops[drop_id].num_claims_registered < u64::MAX,
    ensures
        ({
            let d0 = z.drops[drop_id];
            let d1 = z.registered_state(drop_id, token_id).drops[drop_id];
            &&& d1.nft().id_set() == d0.nft().id_set().insert(token_id)
            &&& !d0.nft().id_set().contains(token_id)
            &&& d1.nft().token_ids.len() == d0.nft().token_ids.len() + 1
            &&& d0.num_claims_registered + 1 <= d0.claim_cap() ==> d1.num_claims_registered
                == d0.num_claims_registered + 1
            &&& d0.num_claims_registered + 1 > d0.claim_cap() ==> d1.num_claims_registered
                == d0.claim_cap()
            &&& d1.claim_cap() == d0.claim_cap()
        }),
        forall|k: u128|
            k != drop_id ==> z.registered_state(drop_id, token_id).drops.contains_key(k)
                == z.drops.contains_key(k),
        forall|k: u128|
            k != drop_id && z.drops.contains_key(k) ==> z.registered_state(
                drop_id,
                token_id,
            ).drops[k] == z.drops[k],
{
    let d0 = z.drops[drop_id];
    let ids0 = d0.nft().token_ids;
    let ids1 = ids0.push(token_id);
    assert forall|y: Seq<char>| ids1.contains(y) == (ids0.contains(y) || y == token_id) by {
        if ids1.contains(y) {
            let j = choose|j: int| 0 <= j < ids1.len() && ids1[j] == y;
            if j < ids0.len() {
                assert(ids0[j] == y);
            }
        }
        if ids0.contains(y) {
            let j = choose|j: int| 0 <= j < ids0.len() && ids0[j] == y;
            assert(ids1[j] == y);
        }
        assert(ids1[ids0.len() as int] == token_id);
    }
    assert(ids1.to_set() =~= ids0.to_set().insert(token_id));
}

/// Law: reconciling a successful batch transfer realizes set difference on
/// the drop's inventory — every listed identifier present leaves, an absent
/// one is tolerated — keeps the inventory duplicate-free, leaves every
/// counter and quota unchanged, and touches no other drop.
pub proof fn lemma_refund_success_sets(z: DropZoneView, drop_id: u128, rm: Seq<Seq<char>>)
    requires
        z.drops.contains_key(drop_id),
        z.drops[drop_id].is_nft(),
        z.drops[drop_id].wf(),
    ensures
        ({
            let d0 = z.drops[drop_id];
            let d1 = z.refund_success_state(drop_id, rm).drops[drop_id];
            &&& d1.nft().id_set() == d0.nft().id_set().difference(rm.to_set())
            &&& d1.wf()
            &&& d1.num_claims_registered == d0.num_claims_registered
            &&& d1.claim_cap() == d0.claim_cap()
        }),
        forall|k: u128|
            k != drop_id ==> z.refund_success_state(drop_id, rm).drops.contains_key(k)
                == z.drops.contains_key(k),
        forall|k: u128|
            k != drop_id && z.drops.contains_key(k) ==> z.refund_success_state(
                drop_id,
                rm,
            ).drops[k] == z.drops[k],
{
    lemma_remove_ids_props(z.drops[drop_id].nft().token_ids, rm);
}

/// Law: the refund path's success branch is idempotent against replay —
/// resolving the same successful batch a second time is again accepted, and
/// it changes nothing: the already-removed identifiers are tolerated and no
/// counter is decremented or re-credited twice.
pub proof fn lemma_refund_success_idempotent(z: DropZoneView, drop_id: u128, rm: Seq<Seq<char>>)
    requires
        z.drops.contains_key(drop_id),
        z.drops[drop_id].is_nft(),
        z.drops[drop_id].wf(),
    ensures
        z.refund_success_state(drop_id, rm).refund_check(z.contract_account, drop_id, true)
            == Ok::<bool, ResolveError>(true),
        z.refund_success_state(drop_id, rm).refund_success_state(drop_id, rm)
            == z.refund_success_state(drop_id, rm),
{
    let z1 = z.refund_success_state(drop_id, rm);
    let ids0 = z.drops[drop_id].nft().token_ids;
    let ids1 = remove_ids(ids0, rm);
    lemma_remove_ids_idempotent(ids0, rm);
    let d1 = z1.drops[drop_id];
    assert(d1.nft().token_ids == ids1);
    assert((NFTDataView { token_ids: remove_ids(d1.nft().token_ids, rm), ..d1.nft() }) =~= d1.nft());
    assert((DropView {
        drop_type: DropTypeView::Nft(
            NFTDataView { token_ids: remove_ids(d1.nft().token_ids, rm), ..d1.nft() },
        ),
        ..d1
    }) =~= d1);
    assert(z1.refund_success_state(drop_id, rm).drops =~= z1.drops);
    assert(z1.refund_success_state(drop_id, rm) =~= z1);
}

} // verus!
