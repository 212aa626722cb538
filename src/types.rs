use vstd::prelude::*;

verus! {

/// A caller identity, held as the textual form of its principal.
pub struct Identity(pub String);

impl View for Identity {
    type V = Seq<char>;

    open spec fn view(&self) -> Seq<char> {
        self.0@
    }
}

impl Identity {
    /// A copy of this identity.
    pub fn duplicate(&self) -> (r: Identity)
        ensures
            r@ == self@,
    {
        Identity(self.0.clone())
    }

    /// Whether two identities are the same.
    pub fn same(&self, other: &Identity) -> (r: bool)
        ensures
            r == (self@ == other@),
    {
        self.0 == other.0
    }
}

/// A single-use referral code.
pub struct Code(pub String);

impl View for Code {
    type V = Seq<char>;

    open spec fn view(&self) -> Seq<char> {
        self.0@
    }
}

impl Code {
    /// A copy of this code.
    pub fn duplicate(&self) -> (r: Code)
        ensures
            r@ == self@,
    {
        Code(self.0.clone())
    }

    /// Whether two codes are the same.
    pub fn same(&self, other: &Code) -> (r: bool)
        ensures
            r == (self@ == other@),
    {
        self.0 == other.0
    }
}

/// The external payment address that rewards are sent to.
pub struct EthereumAddress(pub String);

impl View for EthereumAddress {
    type V = Seq<char>;

    open spec fn view(&self) -> Seq<char> {
        self.0@
    }
}

impl EthereumAddress {
    /// A copy of this address.
    pub fn duplicate(&self) -> (r: EthereumAddress)
        ensures
            r@ == self@,
    {
        EthereumAddress(self.0.clone())
    }

    /// Whether two addresses are the same.
    pub fn same(&self, other: &EthereumAddress) -> (r: bool)
        ensures
            r == (self@ == other@),
    {
        self.0 == other.0
    }
}

/// The position of an entry in the reward ledger.
#[derive(Clone, Copy, Debug, PartialEq, Eq, Structural)]
pub struct Index(pub u64);

/// An amount of tokens.
#[derive(Clone, Copy, Debug, PartialEq, Eq, Structural)]
pub struct AirdropAmount(pub u64);

/// Why a ledger entry pays out.
#[derive(Clone, Copy, Debug, PartialEq, Eq, Structural)]
pub enum RewardType {
    /// Paid to the identity that redeemed a code.
    Airdrop,
    /// Paid to the plain user whose code was redeemed.
    Referral,
}

/// The per-manager counters.
#[derive(Clone, Copy, Debug, PartialEq, Eq, Structural)]
pub struct PrincipalState {
    pub codes_generated: u64,
    pub codes_redeemed: u64,
}

/// The place of an issued code in the referral tree.
pub struct CodeState {
    pub parent_principal: Identity,
    pub depth: u64,
    pub redeemed: bool,
}

impl CodeState {
    pub fn new(parent_principal: Identity, depth: u64, redeemed: bool) -> (r: CodeState)
        ensures
            r.parent_principal@ == parent_principal@,
            r.depth == depth,
            r.redeemed == redeemed,
    {
        CodeState { parent_principal, depth, redeemed }
    }
}

/// One entry of the reward ledger.
pub struct EthereumTransaction {
    pub eth_address: EthereumAddress,
    pub amount: AirdropAmount,
    pub transferred: bool,
    pub reward_type: RewardType,
}

/// What a redeemer learns about their code.
pub struct Info {
    pub code: Code,
    pub tokens_transferred: bool,
    pub principal: Identity,
    pub ethereum_address: EthereumAddress,
    pub children: Option<Vec<(Code, bool)>>,
}

/// What a manager learns about a freshly issued root code.
pub struct CodeInfo {
    pub code: Code,
    pub codes_generated: u64,
    pub codes_redeemed: u64,
}

} // verus!
