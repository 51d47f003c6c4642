//! Data model: drops, their claim-quota configuration, and the NFT payload.

use vstd::prelude::*;

verus! {

/// A claimant's public key. Only its identity matters to this core: the
/// length of a drop's key list bounds its claim quota.
pub struct PublicKey {
    pub data: Vec<u8>,
}

impl View for PublicKey {
    type V = Seq<u8>;

    open spec fn view(&self) -> Seq<u8> {
        self.data@
    }
}

impl DeepView for PublicKey {
    type V = Seq<u8>;

    open spec fn deep_view(&self) -> Seq<u8> {
        self.data@
    }
}

/// NFT payload of a drop: the expected counterparty, the longest permitted
/// token identifier (a storage-cost guard), and the registered,
/// not-yet-resolved token identifiers.
pub struct NFTData {
    pub nft_sender: String,
    pub nft_contract: String,
    pub longest_token_id: String,
    pub storage_for_longest: u128,
    pub token_ids: Vec<String>,
}

/// Immutable, caller-supplied template used when a drop is created.
#[derive(Clone)]
pub struct NFTDataConfig {
    pub nft_sender: String,
    pub nft_contract: String,
    pub longest_token_id: String,
}

/// Per-drop claim configuration.
pub struct DropConfig {
    pub max_claims_per_key: u64,
}

/// The asset payload of a drop. This core specifies only the NFT variant;
/// other asset kinds are collaborators outside its scope.
pub enum DropType {
    Nft(NFTData),
    /// A plain currency drop; its payload is outside this core's scope.
    Simple,
}

/// A drop record: admitted-but-unclaimed units, the claimant keys, the claim
/// configuration and the asset payload.
pub struct Drop {
    pub num_claims_registered: u64,
    pub pks: Vec<PublicKey>,
    pub drop_config: DropConfig,
    pub drop_type: DropType,
}

/// Mathematical model of [`NFTData`].
#[verifier::ext_equal]
pub struct NFTDataView {
    pub nft_sender: Seq<char>,
    pub nft_contract: Seq<char>,
    pub longest_token_id: Seq<char>,
    pub storage_for_longest: u128,
    pub token_ids: Seq<Seq<char>>,
}

impl NFTDataView {
    /// The token inventory holds each identifier at most once.
    pub open spec fn wf(self) -> bool {
        self.token_ids.no_duplicates()
    }

    /// The inventory as a set, the shape the protocol reasons about.
    pub open spec fn id_set(self) -> Set<Seq<char>> {
        self.token_ids.to_set()
    }
}

/// Mathematical model of [`DropType`].
#[verifier::ext_equal]
pub enum DropTypeView {
    Nft(NFTDataView),
    Simple,
}

/// Mathematical model of [`Drop`].
#[verifier::ext_equal]
pub struct DropView {
    pub num_claims_registered: u64,
    pub pks: Seq<Seq<u8>>,
    pub max_claims_per_key: u64,
    pub drop_type: DropTypeView,
}

impl DropView {
    pub open spec fn wf(self) -> bool {
        match self.drop_type {
            DropTypeView::Nft(n) => n.wf(),
            DropTypeView::Simple => true,
        }
    }

    pub open spec fn is_nft(self) -> bool {
        self.drop_type is Nft
    }

    pub open spec fn nft(self) -> NFTDataView {
        self.drop_type->Nft_0
    }

    /// Upper bound on admitted claims: one per key per permitted use.
    pub open spec fn claim_cap(self) -> int {
        self.pks.len() * self.max_claims_per_key
    }
}

impl View for NFTData {
    type V = NFTDataView;

    open spec fn view(&self) -> NFTDataView {
        NFTDataView {
            nft_sender: self.nft_sender@,
            nft_contract: self.nft_contract@,
            longest_token_id: self.longest_token_id@,
            storage_for_longest: self.storage_for_longest,
            token_ids: self.token_ids.deep_view(),
        }
    }
}

impl View for DropType {
    type V = DropTypeView;

    open spec fn view(&self) -> DropTypeView {
        match self {
            DropType::Nft(n) => DropTypeView::Nft(n@),
            DropType::Simple => DropTypeView::Simple,
        }
    }
}

impl View for Drop {
    type V = DropView;

    open spec fn view(&self) -> DropView {
        DropView {
            num_claims_registered: self.num_claims_registered,
            pks: self.pks.deep_view(),
            max_claims_per_key: self.drop_config.max_claims_per_key,
            drop_type: self.drop_type@,
        }
    }
}

/// Why a registration was rejected. Each rejection leaves the state unchanged.
#[derive(Debug, PartialEq, Eq)]
pub enum RegisterError {
    /// No drop exists under the given identifier.
    UnknownDrop,
    /// The drop's asset payload is not the NFT variant.
    AssetKindMismatch,
    /// The token did not originate from the pre-declared sender/contract pair.
    SenderContractMismatch,
    /// The token identifier is longer than the longest permitted one.
    TokenIdTooLong,
    /// The token identifier is already registered.
    DuplicateTokenId,
}

/// Why a resolution call was rejected.
#[derive(Debug, PartialEq, Eq)]
pub enum ResolveError {
    /// Resolution is a trusted self-callback; any other caller is rejected.
    Unauthorized,
    /// No drop exists under the given identifier.
    UnknownDrop,
    /// The drop's asset payload is not the NFT variant.
    AssetKindMismatch,
}

impl NFTData {
    /// Builds the NFT payload of a fresh drop from its caller-supplied
    /// template: the counterparty and length bound are copied and the token
    /// inventory starts empty.
    pub fn from_config(config: NFTDataConfig, storage_for_longest: u128) -> (r: NFTData)
        ensures
            r@.nft_sender == config.nft_sender@,
            r@.nft_contract == config.nft_contract@,
            r@.longest_token_id == config.longest_token_id@,
            r@.storage_for_longest == storage_for_longest,
            r@.token_ids == Seq::<Seq<char>>::empty(),
            r@.wf(),
    {
        let token_ids: Vec<String> = Vec::new();
        proof {
            assert(token_ids.deep_view() =~= Seq::<Seq<char>>::empty());
        }
        NFTData {
            nft_sender: config.nft_sender,
            nft_contract: config.nft_contract,
            longest_token_id: config.longest_token_id,
            storage_for_longest,
            token_ids,
        }
    }
}

} // verus!
