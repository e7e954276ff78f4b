use crate::address::{Address, Auth};
use crate::campaign::{Campaign, CampaignInfo, CampaignView};
use crate::campaign_management::{
    CampaignDetail, CampaignManagement, CampaignSummary, ManagementView, MIN_CAMPAIGN_AMOUNT,
};
use crate::collections::{
    contains_address, copy_addresses, distinct_keys, has_key, key_index, lemma_map_values,
    lemma_map_values_put, lemma_put, lemma_put_existing, lemma_put_new, lemma_put_same,
    lemma_put_twice, lookup, map_values, put, texts, value_of, AddressMap, NameMap,
};
use crate::deployment::{contract_id, derive_contract_address};
use crate::error::{settles, settles_with, verdict, Error};
use crate::issuance_management::{holdings, IssuanceManagement, IssuanceView, TokenReport};
use crate::localcoin::{
    lemma_burn_keeps_wf, lemma_mint_keeps_wf, lemma_transfer_keeps_wf, LocalCoin, LocalCoinView,
    TokenMetadata,
};
use crate::registry::{Regisrty, RegistryView};
use vstd::prelude::*;

verus! {

/// The five kinds of contract on one ledger: the registry, the issuance
/// manager and the campaign manager at their addresses, and every token and
/// every campaign under its own.
///
/// An entry point is invoked by the signer of a transaction. Where it calls
/// into a sibling contract, it finds the sibling by the address that its own
/// contract has stored, and the sibling sees the signer's authorization
/// together with the calling contract as the invoker. What an entry point
/// does, it does in full or not at all.
pub struct Platform {
    registry_address: Address,
    issuance_address: Address,
    management_address: Address,
    registry: Regisrty,
    issuance: IssuanceManagement,
    management: CampaignManagement,
    tokens: AddressMap<LocalCoin>,
    campaigns: AddressMap<Campaign>,
}

/// The state of the ledger as contracts speak of it.
#[verifier::ext_equal]
pub struct PlatformView {
    pub registry_address: Address,
    pub issuance_address: Address,
    pub management_address: Address,
    pub registry: RegistryView,
    pub issuance: IssuanceView,
    pub management: ManagementView,
    /// Every token contract, the backing asset included.
    pub tokens: Seq<(Address, LocalCoinView)>,
    /// Every campaign contract.
    pub campaigns: Seq<(Address, CampaignView)>,
}

impl PlatformView {
    /// Whether `address` is that of the registry, the issuance manager or the
    /// campaign manager.
    pub open spec fn fixed(self, address: Address) -> bool {
        address == self.registry_address || address == self.issuance_address || address
            == self.management_address
    }

    /// Whether a contract lives at `address`.
    pub open spec fn is_contract(self, address: Address) -> bool {
        self.fixed(address) || has_key(self.tokens, address) || has_key(self.campaigns, address)
    }

    /// The ledger's invariant: every contract is well formed and no two
    /// contracts share an address.
    pub open spec fn wf(self) -> bool {
        &&& self.registry.wf()
        &&& self.issuance.wf()
        &&& self.management.wf()
        &&& distinct_keys(self.tokens)
        &&& distinct_keys(self.campaigns)
        &&& self.registry_address != self.issuance_address
        &&& self.registry_address != self.management_address
        &&& self.issuance_address != self.management_address
        &&& forall|i: int|
            0 <= i < self.tokens.len() ==> {
                &&& (#[trigger] self.tokens[i]).1.wf()
                &&& !self.fixed(self.tokens[i].0)
                &&& !has_key(self.campaigns, self.tokens[i].0)
            }
        &&& forall|i: int|
            0 <= i < self.campaigns.len() ==> {
                &&& (#[trigger] self.campaigns[i]).1.wf()
                &&& !self.fixed(self.campaigns[i].0)
            }
    }

    /// The token that lives at `address`.
    pub open spec fn token_at(self, address: Address) -> Result<LocalCoinView, Error> {
        if has_key(self.tokens, address) {
            Ok(value_of(self.tokens, address))
        } else {
            Err(Error::ContractNotFound)
        }
    }

    /// The campaign that lives at `address`.
    pub open spec fn campaign_at(self, address: Address) -> Result<CampaignView, Error> {
        if has_key(self.campaigns, address) {
            Ok(value_of(self.campaigns, address))
        } else {
            Err(Error::ContractNotFound)
        }
    }

    /// The registry as a contract finds it that has stored `pointer` as the
    /// registry's address.
    pub open spec fn registry_at(self, pointer: Option<Address>) -> Result<RegistryView, Error> {
        match pointer {
            None => Err(Error::AddressNotSet),
            Some(address) => if address == self.registry_address {
                Ok(self.registry)
            } else {
                Err(Error::ContractNotFound)
            },
        }
    }

    /// The super admin as a contract finds it that has stored `pointer` as
    /// the registry's address.
    pub open spec fn super_admin_at(self, pointer: Option<Address>) -> Result<Address, Error> {
        match self.registry_at(pointer) {
            Err(e) => Err(e),
            Ok(registry) => match registry.super_admin {
                Some(admin) => Ok(admin),
                None => Err(Error::SuperAdminNotSet),
            },
        }
    }

    /// The ledger with the token at `address` in the state `coin`.
    pub open spec fn with_token(self, address: Address, coin: LocalCoinView) -> PlatformView {
        PlatformView { tokens: put(self.tokens, address, coin), ..self }
    }

    /// The ledger with the campaign at `address` in the state `campaign`.
    pub open spec fn with_campaign(self, address: Address, campaign: CampaignView) -> PlatformView {
        PlatformView { campaigns: put(self.campaigns, address, campaign), ..self }
    }

    /// A step of the token at `address`: the token must exist, and the ledger
    /// follows the token.
    pub open spec fn on_token(
        self,
        address: Address,
        step: spec_fn(LocalCoinView) -> Result<LocalCoinView, Error>,
    ) -> Result<PlatformView, Error> {
        match self.token_at(address) {
            Err(e) => Err(e),
            Ok(coin) => match step(coin) {
                Err(e) => Err(e),
                Ok(next) => Ok(self.with_token(address, next)),
            },
        }
    }

    /// A step of the campaign at `address`: the campaign must exist, and the
    /// ledger follows the campaign.
    pub open spec fn on_campaign(
        self,
        address: Address,
        step: spec_fn(CampaignView) -> Result<CampaignView, Error>,
    ) -> Result<PlatformView, Error> {
        match self.campaign_at(address) {
            Err(e) => Err(e),
            Ok(campaign) => match step(campaign) {
                Err(e) => Err(e),
                Ok(next) => Ok(self.with_campaign(address, next)),
            },
        }
    }

    /// The ledger right after its three managers have been deployed.
    pub open spec fn fresh(
        registry: Address,
        issuance: Address,
        management: Address,
    ) -> PlatformView {
        PlatformView {
            registry_address: registry,
            issuance_address: issuance,
            management_address: management,
            registry: RegistryView::blank(),
            issuance: IssuanceView::blank(),
            management: ManagementView::blank(),
            tokens: Seq::empty(),
            campaigns: Seq::empty(),
        }
    }

    /// Deploying an untouched token at a free address.
    pub open spec fn deploy_token(self, address: Address) -> Result<PlatformView, Error> {
        if self.is_contract(address) {
            Err(Error::ContractAlreadyExists)
        } else {
            Ok(self.with_token(address, LocalCoinView::blank()))
        }
    }

    /// Deploying an untouched campaign at a free address.
    pub open spec fn deploy_campaign(self, address: Address) -> Result<PlatformView, Error> {
        if self.is_contract(address) {
            Err(Error::ContractAlreadyExists)
        } else {
            Ok(self.with_campaign(address, CampaignView::blank()))
        }
    }
}

/// Putting a well-formed token in the place of a token keeps the ledger well
/// formed.
pub proof fn lemma_with_token_keeps_wf(ledger: PlatformView, address: Address, coin: LocalCoinView)
    requires
        ledger.wf(),
        has_key(ledger.tokens, address),
        coin.wf(),
    ensures
        ledger.with_token(address, coin).wf(),
        ledger.with_token(address, coin).token_at(address) == Ok::<LocalCoinView, Error>(coin),
        forall|other: Address|
            other != address ==> #[trigger] ledger.with_token(address, coin).token_at(other)
                == ledger.token_at(other),
        forall|other: Address|
            #[trigger] ledger.with_token(address, coin).is_contract(other) == ledger.is_contract(
                other,
            ),
{
    lemma_put_existing(ledger.tokens, address, coin);
    let next = ledger.with_token(address, coin);
    let p = key_index(ledger.tokens, address);
    assert forall|i: int| 0 <= i < next.tokens.len() implies {
        &&& (#[trigger] next.tokens[i]).1.wf()
        &&& !next.fixed(next.tokens[i].0)
        &&& !has_key(next.campaigns, next.tokens[i].0)
    } by {
        assert(next.tokens[i].0 == ledger.tokens[i].0);
        if i != p {
            assert(next.tokens[i] == ledger.tokens[i]);
        }
    }
}

/// Putting a well-formed campaign in the place of a campaign keeps the
/// ledger well formed.
pub proof fn lemma_with_campaign_keeps_wf(
    ledger: PlatformView,
    address: Address,
    campaign: CampaignView,
)
    requires
        ledger.wf(),
        has_key(ledger.campaigns, address),
        campaign.wf(),
    ensures
        ledger.with_campaign(address, campaign).wf(),
        ledger.with_campaign(address, campaign).campaign_at(address) == Ok::<CampaignView, Error>(
            campaign,
        ),
        forall|other: Address|
            other != address ==> #[trigger] ledger.with_campaign(address, campaign).campaign_at(
                other,
            ) == ledger.campaign_at(other),
        forall|other: Address|
            #[trigger] ledger.with_campaign(address, campaign).is_contract(other)
                == ledger.is_contract(other),
{
    lemma_put_existing(ledger.campaigns, address, campaign);
    let next = ledger.with_campaign(address, campaign);
    let p = key_index(ledger.campaigns, address);
    assert forall|i: int| 0 <= i < next.campaigns.len() implies {
        &&& (#[trigger] next.campaigns[i]).1.wf()
        &&& !next.fixed(next.campaigns[i].0)
    } by {
        assert(next.campaigns[i].0 == ledger.campaigns[i].0);
        if i != p {
            assert(next.campaigns[i] == ledger.campaigns[i]);
        }
    }
    assert forall|i: int| 0 <= i < next.tokens.len() implies {
        &&& (#[trigger] next.tokens[i]).1.wf()
        &&& !next.fixed(next.tokens[i].0)
        &&& !has_key(next.campaigns, next.tokens[i].0)
    } by {
        assert(has_key(next.campaigns, next.tokens[i].0) == has_key(
            ledger.campaigns,
            ledger.tokens[i].0,
        ));
    }
}

/// Deploying a well-formed token at a free address keeps the ledger well
/// formed.
pub proof fn lemma_new_token_keeps_wf(ledger: PlatformView, address: Address, coin: LocalCoinView)
    requires
        ledger.wf(),
        !ledger.is_contract(address),
        coin.wf(),
    ensures
        ledger.with_token(address, coin).wf(),
        ledger.with_token(address, coin).token_at(address) == Ok::<LocalCoinView, Error>(coin),
        forall|other: Address|
            other != address ==> #[trigger] ledger.with_token(address, coin).token_at(other)
                == ledger.token_at(other),
{
    lemma_put_new(ledger.tokens, address, coin);
    let next = ledger.with_token(address, coin);
    assert forall|i: int| 0 <= i < next.tokens.len() implies {
        &&& (#[trigger] next.tokens[i]).1.wf()
        &&& !next.fixed(next.tokens[i].0)
        &&& !has_key(next.campaigns, next.tokens[i].0)
    } by {
        if i < ledger.tokens.len() {
            assert(next.tokens[i] == ledger.tokens[i]);
        }
    }
}

/// Deploying a well-formed campaign at a free address keeps the ledger well
/// formed.
pub proof fn lemma_new_campaign_keeps_wf(
    ledger: PlatformView,
    address: Address,
    campaign: CampaignView,
)
    requires
        ledger.wf(),
        !ledger.is_contract(address),
        campaign.wf(),
    ensures
        ledger.with_campaign(address, campaign).wf(),
        ledger.with_campaign(address, campaign).campaign_at(address) == Ok::<CampaignView, Error>(
            campaign,
        ),
        forall|other: Address|
            other != address ==> #[trigger] ledger.with_campaign(address, campaign).campaign_at(
                other,
            ) == ledger.campaign_at(other),
{
    lemma_put_new(ledger.campaigns, address, campaign);
    let next = ledger.with_campaign(address, campaign);
    assert forall|i: int| 0 <= i < next.campaigns.len() implies {
        &&& (#[trigger] next.campaigns[i]).1.wf()
        &&& !next.fixed(next.campaigns[i].0)
    } by {
        if i < ledger.campaigns.len() {
            assert(next.campaigns[i] == ledger.campaigns[i]);
        }
    }
    assert forall|i: int| 0 <= i < next.tokens.len() implies {
        &&& (#[trigger] next.tokens[i]).1.wf()
        &&& !next.fixed(next.tokens[i].0)
        &&& !has_key(next.campaigns, next.tokens[i].0)
    } by {
        assert(has_key(ledger.tokens, ledger.tokens[i].0));
    }
}

/// A token of a well-formed ledger is well formed.
pub proof fn lemma_token_is_wf(ledger: PlatformView, address: Address)
    requires
        ledger.wf(),
        has_key(ledger.tokens, address),
    ensures
        value_of(ledger.tokens, address).wf(),
        !ledger.fixed(address),
        !has_key(ledger.campaigns, address),
{
    let p = key_index(ledger.tokens, address);
    assert(ledger.tokens[p].0 == address);
}

/// A campaign of a well-formed ledger is well formed.
pub proof fn lemma_campaign_is_wf(ledger: PlatformView, address: Address)
    requires
        ledger.wf(),
        has_key(ledger.campaigns, address),
    ensures
        value_of(ledger.campaigns, address).wf(),
        !ledger.fixed(address),
        !has_key(ledger.tokens, address),
{
    let p = key_index(ledger.campaigns, address);
    assert(ledger.campaigns[p].0 == address);
    if has_key(ledger.tokens, address) {
        let q = key_index(ledger.tokens, address);
        assert(ledger.tokens[q].0 == address);
    }
}

impl View for Platform {
    type V = PlatformView;

    closed spec fn view(&self) -> PlatformView {
        PlatformView {
            registry_address: self.registry_address,
            issuance_address: self.issuance_address,
            management_address: self.management_address,
            registry: self.registry@,
            issuance: self.issuance@,
            management: self.management@,
            tokens: map_values(self.tokens@, |coin: LocalCoin| coin@),
            campaigns: map_values(self.campaigns@, |campaign: Campaign| campaign@),
        }
    }
}

impl Platform {
    /// A ledger with an untouched registry, issuance manager and campaign
    /// manager at three different addresses.
    pub fn new(registry: Address, issuance: Address, management: Address) -> (made: Result<
        Platform,
        Error,
    >)
        ensures
            registry == issuance || registry == management || issuance == management ==> made
                == Err::<Platform, Error>(Error::ContractAlreadyExists),
            registry != issuance && registry != management && issuance != management ==> made.is_ok()
                && made.unwrap()@ == PlatformView::fresh(registry, issuance, management)
                && made.unwrap()@.wf(),
    {
        if registry == issuance || registry == management || issuance == management {
            return Err(Error::ContractAlreadyExists);
        }
        let ledger = Platform {
            registry_address: registry,
            issuance_address: issuance,
            management_address: management,
            registry: Regisrty::new(),
            issuance: IssuanceManagement::new(),
            management: CampaignManagement::new(),
            tokens: AddressMap::new(),
            campaigns: AddressMap::new(),
        };
        assert(ledger@ =~= PlatformView::fresh(registry, issuance, management));
        Ok(ledger)
    }

    /// The registry's address.
    pub fn registry_address(&self) -> (address: Address)
        ensures
            address == self@.registry_address,
    {
        self.registry_address
    }

    /// The issuance manager's address.
    pub fn issuance_address(&self) -> (address: Address)
        ensures
            address == self@.issuance_address,
    {
        self.issuance_address
    }

    /// The campaign manager's address.
    pub fn management_address(&self) -> (address: Address)
        ensures
            address == self@.management_address,
    {
        self.management_address
    }

    /// Whether a contract lives at `address`.
    pub fn is_contract(&self, address: Address) -> (taken: bool)
        requires
            self@.wf(),
        ensures
            taken == self@.is_contract(address),
    {
        proof {
            lemma_map_values(self.tokens@, |coin: LocalCoin| coin@);
            lemma_map_values(self.campaigns@, |campaign: Campaign| campaign@);
        }
        address == self.registry_address || address == self.issuance_address || address
            == self.management_address || self.tokens.contains_key(address)
            || self.campaigns.contains_key(address)
    }

    /// The token that lives at `address`, if there is one.
    pub fn token(&self, address: Address) -> (found: Option<&LocalCoin>)
        requires
            self@.wf(),
        ensures
            found.is_some() == has_key(self@.tokens, address),
            found matches Some(coin) ==> coin@ == value_of(self@.tokens, address) && coin@.wf(),
    {
        proof {
            lemma_map_values(self.tokens@, |coin: LocalCoin| coin@);
            if has_key(self@.tokens, address) {
                lemma_token_is_wf(self@, address);
            }
        }
        self.tokens.get(address)
    }

    /// The campaign that lives at `address`, if there is one.
    pub fn campaign(&self, address: Address) -> (found: Option<&Campaign>)
        requires
            self@.wf(),
        ensures
            found.is_some() == has_key(self@.campaigns, address),
            found matches Some(campaign) ==> campaign@ == value_of(self@.campaigns, address)
                && campaign@.wf(),
    {
        proof {
            lemma_map_values(self.campaigns@, |campaign: Campaign| campaign@);
            if has_key(self@.campaigns, address) {
                lemma_campaign_is_wf(self@, address);
            }
        }
        self.campaigns.get(address)
    }

    /// Deploys an untouched token at `address`.
    pub fn deploy_token(&mut self, address: Address) -> (outcome: Result<(), Error>)
        requires
            old(self)@.wf(),
        ensures
            final(self)@.wf(),
            settles(old(self)@.deploy_token(address), old(self)@, outcome, final(self)@),
    {
        if self.is_contract(address) {
            return Err(Error::ContractAlreadyExists);
        }
        let coin = LocalCoin::new();
        proof {
            lemma_map_values(self.tokens@, |coin: LocalCoin| coin@);
            lemma_map_values_put(self.tokens@, |coin: LocalCoin| coin@, address, coin);
            lemma_new_token_keeps_wf(self@, address, coin@);
        }
        self.tokens.insert(address, coin);
        assert(self@ =~= old(self)@.with_token(address, LocalCoinView::blank()));
        Ok(())
    }

    /// Deploys an untouched campaign at `address`.
    pub fn deploy_campaign(&mut self, address: Address) -> (outcome: Result<(), Error>)
        requires
            old(self)@.wf(),
        ensures
            final(self)@.wf(),
            settles(old(self)@.deploy_campaign(address), old(self)@, outcome, final(self)@),
    {
        if self.is_contract(address) {
            return Err(Error::ContractAlreadyExists);
        }
        let campaign = Campaign::new();
        proof {
            lemma_map_values(self.campaigns@, |campaign: Campaign| campaign@);
            lemma_map_values_put(
                self.campaigns@,
                |campaign: Campaign| campaign@,
                address,
                campaign,
            );
            lemma_new_campaign_keeps_wf(self@, address, campaign@);
        }
        self.campaigns.insert(address, campaign);
        assert(self@ =~= old(self)@.with_campaign(address, CampaignView::blank()));
        Ok(())
    }

    /// Takes the token at `address` out of the ledger and leaves an untouched
    /// one in its place.
    fn checkout_token(&mut self, address: Address) -> (coin: LocalCoin)
        requires
            old(self)@.wf(),
            has_key(old(self)@.tokens, address),
        ensures
            coin@ == value_of(old(self)@.tokens, address),
            coin@.wf(),
            final(self)@ == old(self)@.with_token(address, LocalCoinView::blank()),
            final(self)@.wf(),
            has_key(final(self)@.tokens, address),
    {
        let placeholder = LocalCoin::new();
        proof {
            lemma_map_values(self.tokens@, |coin: LocalCoin| coin@);
            lemma_map_values_put(self.tokens@, |coin: LocalCoin| coin@, address, placeholder);
            lemma_with_token_keeps_wf(self@, address, placeholder@);
            lemma_token_is_wf(self@, address);
            lemma_put_existing(self@.tokens, address, placeholder@);
        }
        let taken = self.tokens.insert(address, placeholder);
        assert(self@ =~= old(self)@.with_token(address, LocalCoinView::blank()));
        match taken {
            Some(coin) => coin,
            None => LocalCoin::new(),
        }
    }

    /// Puts `coin` in the place of the token at `address`.
    fn checkin_token(&mut self, address: Address, coin: LocalCoin)
        requires
            old(self)@.wf(),
            has_key(old(self)@.tokens, address),
            coin@.wf(),
        ensures
            final(self)@ == old(self)@.with_token(address, coin@),
            final(self)@.wf(),
    {
        proof {
            lemma_map_values(self.tokens@, |coin: LocalCoin| coin@);
            lemma_map_values_put(self.tokens@, |coin: LocalCoin| coin@, address, coin);
            lemma_with_token_keeps_wf(self@, address, coin@);
        }
        self.tokens.insert(address, coin);
        assert(self@ =~= old(self)@.with_token(address, coin@));
    }

    /// Takes the campaign at `address` out of the ledger and leaves an
    /// untouched one in its place.
    fn checkout_campaign(&mut self, address: Address) -> (campaign: Campaign)
        requires
            old(self)@.wf(),
            has_key(old(self)@.campaigns, address),
        ensures
            campaign@ == value_of(old(self)@.campaigns, address),
            campaign@.wf(),
            final(self)@ == old(self)@.with_campaign(address, CampaignView::blank()),
            final(self)@.wf(),
            has_key(final(self)@.campaigns, address),
    {
        let placeholder = Campaign::new();
        proof {
            lemma_map_values(self.campaigns@, |campaign: Campaign| campaign@);
            lemma_map_values_put(
                self.campaigns@,
                |campaign: Campaign| campaign@,
                address,
                placeholder,
            );
            lemma_with_campaign_keeps_wf(self@, address, placeholder@);
            lemma_campaign_is_wf(self@, address);
            lemma_put_existing(self@.campaigns, address, placeholder@);
        }
        let taken = self.campaigns.insert(address, placeholder);
        assert(self@ =~= old(self)@.with_campaign(address, CampaignView::blank()));
        match taken {
            Some(campaign) => campaign,
            None => Campaign::new(),
        }
    }

    /// Puts `campaign` in the place of the campaign at `address`.
    fn checkin_campaign(&mut self, address: Address, campaign: Campaign)
        requires
            old(self)@.wf(),
            has_key(old(self)@.campaigns, address),
            campaign@.wf(),
        ensures
            final(self)@ == old(self)@.with_campaign(address, campaign@),
            final(self)@.wf(),
    {
        proof {
            lemma_map_values(self.campaigns@, |campaign: Campaign| campaign@);
            lemma_map_values_put(self.campaigns@, |campaign: Campaign| campaign@, address, campaign);
            lemma_with_campaign_keeps_wf(self@, address, campaign@);
        }
        self.campaigns.insert(address, campaign);
        assert(self@ =~= old(self)@.with_campaign(address, campaign@));
    }
}


// ---------------------------------------------------------------------------
// Entry points of the registry, and the beginnings of the two managers
// ---------------------------------------------------------------------------

impl PlatformView {
    /// A step of the registry: the ledger follows the registry.
    pub open spec fn on_registry(self, step: Result<RegistryView, Error>) -> Result<
        PlatformView,
        Error,
    > {
        match step {
            Err(e) => Err(e),
            Ok(next) => Ok(PlatformView { registry: next, ..self }),
        }
    }

    /// `initialize` of the issuance manager.
    pub open spec fn issuance_initialize(self, registry: Address) -> Result<PlatformView, Error> {
        match self.issuance.initialize(registry) {
            Err(e) => Err(e),
            Ok(next) => Ok(PlatformView { issuance: next, ..self }),
        }
    }

    /// `initialize` of the campaign manager.
    pub open spec fn management_initialize(self, registry: Address) -> Result<
        PlatformView,
        Error,
    > {
        match self.management.initialize(registry) {
            Err(e) => Err(e),
            Ok(next) => Ok(PlatformView { management: next, ..self }),
        }
    }
}

impl Platform {
    /// The registry.
    pub fn registry(&self) -> (registry: &Regisrty)
        ensures
            registry@ == self@.registry,
    {
        &self.registry
    }

    /// The issuance manager.
    pub fn issuance(&self) -> (issuance: &IssuanceManagement)
        ensures
            issuance@ == self@.issuance,
    {
        &self.issuance
    }

    /// The campaign manager.
    pub fn management(&self) -> (management: &CampaignManagement)
        ensures
            management@ == self@.management,
    {
        &self.management
    }

    /// Initializes the registry.
    pub fn registry_initialize(&mut self, super_admin: Address) -> (outcome: Result<(), Error>)
        requires
            old(self)@.wf(),
        ensures
            final(self)@.wf(),
            settles(
                old(self)@.on_registry(old(self)@.registry.initialize(super_admin)),
                old(self)@,
                outcome,
                final(self)@,
            ),
    {
        let outcome = self.registry.initialize(super_admin);
        proof {
            if outcome.is_err() {
                assert(self@ =~= old(self)@);
            }
        }
        outcome
    }

    /// Records the campaign manager with the registry.
    pub fn registry_set_campaign_management(
        &mut self,
        signer: Address,
        campaign_management: Address,
    ) -> (outcome: Result<(), Error>)
        requires
            old(self)@.wf(),
        ensures
            final(self)@.wf(),
            settles(
                old(self)@.on_registry(
                    old(self)@.registry.set_campaign_management(
                        Auth::signed_by(signer),
                        campaign_management,
                    ),
                ),
                old(self)@,
                outcome,
                final(self)@,
            ),
    {
        let outcome = self.registry.set_campaign_management(
            &Auth::signed_by(signer),
            campaign_management,
        );
        proof {
            if outcome.is_err() {
                assert(self@ =~= old(self)@);
            }
        }
        outcome
    }

    /// Records the issuance manager with the registry.
    pub fn registry_set_issuance_management(
        &mut self,
        signer: Address,
        issuance_management: Address,
    ) -> (outcome: Result<(), Error>)
        requires
            old(self)@.wf(),
        ensures
            final(self)@.wf(),
            settles(
                old(self)@.on_registry(
                    old(self)@.registry.set_issuance_management(
                        Auth::signed_by(signer),
                        issuance_management,
                    ),
                ),
                old(self)@,
                outcome,
                final(self)@,
            ),
    {
        let outcome = self.registry.set_issuance_management(
            &Auth::signed_by(signer),
            issuance_management,
        );
        proof {
            if outcome.is_err() {
                assert(self@ =~= old(self)@);
            }
        }
        outcome
    }

    /// Hands the super admin's office over to `new_super_admin`.
    pub fn set_super_admin(
        &mut self,
        signer: Address,
        new_super_admin: Address,
    ) -> (outcome: Result<(), Error>)
        requires
            old(self)@.wf(),
        ensures
            final(self)@.wf(),
            settles(
                old(self)@.on_registry(
                    old(self)@.registry.set_super_admin(
                        Auth::signed_by(signer),
                        new_super_admin,
                    ),
                ),
                old(self)@,
                outcome,
                final(self)@,
            ),
    {
        let outcome = self.registry.set_super_admin(&Auth::signed_by(signer), new_super_admin);
        proof {
            if outcome.is_err() {
                assert(self@ =~= old(self)@);
            }
        }
        outcome
    }

    /// Files a merchant's request for verification.
    pub fn merchant_registration(
        &mut self,
        merchant_addr: Address,
        proprietor: String,
        phone_no: String,
        store_name: String,
        location: String,
    ) -> (outcome: Result<(), Error>)
        requires
            old(self)@.wf(),
        ensures
            final(self)@.wf(),
            settles(
                old(self)@.on_registry(
                    old(self)@.registry.merchant_registration(
                        merchant_addr,
                        proprietor,
                        phone_no,
                        store_name,
                        location,
                    ),
                ),
                old(self)@,
                outcome,
                final(self)@,
            ),
    {
        let outcome = self.registry.merchant_registration(
            merchant_addr,
            proprietor,
            phone_no,
            store_name,
            location,
        );
        proof {
            if outcome.is_err() {
                assert(self@ =~= old(self)@);
            }
        }
        outcome
    }

    /// Verifies a merchant that has asked for it.
    pub fn verify_merchant(&mut self, signer: Address, merchant_addr: Address) -> (outcome: Result<
        (),
        Error,
    >)
        requires
            old(self)@.wf(),
        ensures
            final(self)@.wf(),
            settles(
                old(self)@.on_registry(
                    old(self)@.registry.verify_merchant(
                        Auth::signed_by(signer),
                        merchant_addr,
                    ),
                ),
                old(self)@,
                outcome,
                final(self)@,
            ),
    {
        let outcome = self.registry.verify_merchant(&Auth::signed_by(signer), merchant_addr);
        proof {
            if outcome.is_err() {
                assert(self@ =~= old(self)@);
            }
        }
        outcome
    }

    /// Rewrites the profile of a verified merchant, and withdraws its
    /// verification where `verify_status` is false.
    pub fn update_merchant_info(
        &mut self,
        signer: Address,
        merchant_addr: Address,
        verify_status: bool,
        proprietor: String,
        phone_no: String,
        store_name: String,
        location: String,
    ) -> (outcome: Result<(), Error>)
        requires
            old(self)@.wf(),
        ensures
            final(self)@.wf(),
            settles(
                old(self)@.on_registry(
                    old(self)@.registry.update_merchant_info(
                        Auth::signed_by(signer),
                        merchant_addr,
                        verify_status,
                        proprietor,
                        phone_no,
                        store_name,
                        location,
                    ),
                ),
                old(self)@,
                outcome,
                final(self)@,
            ),
    {
        let outcome = self.registry.update_merchant_info(
            &Auth::signed_by(signer),
            merchant_addr,
            verify_status,
            proprietor,
            phone_no,
            store_name,
            location,
        );
        proof {
            if outcome.is_err() {
                assert(self@ =~= old(self)@);
            }
        }
        outcome
    }

    /// Records `admin` as the owner of `campaign`, on the authority of the
    /// campaign manager that the registry knows.
    pub fn set_campaign_admin(
        &mut self,
        signer: Address,
        campaign: Address,
        admin: Address,
    ) -> (outcome: Result<(), Error>)
        requires
            old(self)@.wf(),
        ensures
            final(self)@.wf(),
            settles(
                old(self)@.on_registry(
                    old(self)@.registry.set_campaign_admin(
                        Auth::signed_by(signer),
                        campaign,
                        admin,
                    ),
                ),
                old(self)@,
                outcome,
                final(self)@,
            ),
    {
        let outcome = self.registry.set_campaign_admin(&Auth::signed_by(signer), campaign, admin);
        proof {
            if outcome.is_err() {
                assert(self@ =~= old(self)@);
            }
        }
        outcome
    }

    /// Appends `token_address` to the deployed tokens, on the authority of
    /// the issuance manager that the registry knows.
    pub fn add_deployed_tokens(&mut self, signer: Address, token_address: Address) -> (outcome:
        Result<(), Error>)
        requires
            old(self)@.wf(),
        ensures
            final(self)@.wf(),
            settles(
                old(self)@.on_registry(
                    old(self)@.registry.add_deployed_tokens(
                        Auth::signed_by(signer),
                        token_address,
                    ),
                ),
                old(self)@,
                outcome,
                final(self)@,
            ),
    {
        let outcome = self.registry.add_deployed_tokens(&Auth::signed_by(signer), token_address);
        proof {
            if outcome.is_err() {
                assert(self@ =~= old(self)@);
            }
        }
        outcome
    }

    /// Initializes the issuance manager.
    pub fn issuance_initialize(&mut self, registry: Address) -> (outcome: Result<(), Error>)
        requires
            old(self)@.wf(),
        ensures
            final(self)@.wf(),
            settles(old(self)@.issuance_initialize(registry), old(self)@, outcome, final(self)@),
    {
        let outcome = self.issuance.initialize(registry);
        proof {
            if outcome.is_err() {
                assert(self@ =~= old(self)@);
            }
        }
        outcome
    }

    /// Initializes the campaign manager.
    pub fn management_initialize(&mut self, registry: Address) -> (outcome: Result<(), Error>)
        requires
            old(self)@.wf(),
        ensures
            final(self)@.wf(),
            settles(old(self)@.management_initialize(registry), old(self)@, outcome, final(self)@),
    {
        let outcome = self.management.initialize(registry);
        proof {
            if outcome.is_err() {
                assert(self@ =~= old(self)@);
            }
        }
        outcome
    }
}

// ---------------------------------------------------------------------------
// Entry points of one token or one campaign
// ---------------------------------------------------------------------------

impl PlatformView {
    /// `initialize` of the token at `token`.
    pub open spec fn initialize_token(
        self,
        token: Address,
        admin: Address,
        decimal: u32,
        name: String,
        symbol: String,
    ) -> Result<PlatformView, Error> {
        self.on_token(token, |coin: LocalCoinView| coin.initialize(admin, decimal, name, symbol))
    }

    /// `mint` of the token at `token`.
    pub open spec fn mint(self, auth: Auth, token: Address, to: Address, amount: i128) -> Result<
        PlatformView,
        Error,
    > {
        self.on_token(token, |coin: LocalCoinView| coin.mint(auth, to, amount))
    }

    /// `burn` of the token at `token`.
    pub open spec fn burn(self, auth: Auth, token: Address, from: Address, amount: i128) -> Result<
        PlatformView,
        Error,
    > {
        self.on_token(token, |coin: LocalCoinView| coin.burn(auth, from, amount))
    }

    /// `transfer` of the token at `token`.
    pub open spec fn transfer(
        self,
        auth: Auth,
        token: Address,
        from: Address,
        to: Address,
        amount: i128,
    ) -> Result<PlatformView, Error> {
        self.on_token(token, |coin: LocalCoinView| coin.transfer(auth, from, to, amount))
    }

    /// `set_admin` of the token at `token`.
    pub open spec fn set_token_admin(
        self,
        auth: Auth,
        token: Address,
        new_admin: Address,
    ) -> Result<PlatformView, Error> {
        self.on_token(token, |coin: LocalCoinView| coin.set_admin(auth, new_admin))
    }

    /// `set_issuance_management` of the token at `token`.
    pub open spec fn set_token_issuance_management(
        self,
        token: Address,
        issuance: Address,
    ) -> Result<PlatformView, Error> {
        self.on_token(token, |coin: LocalCoinView| coin.set_issuance_management(issuance))
    }

    /// `recipient_to_merchant_transfer` of the token at `token`: the token
    /// asks the issuance manager that it is bound to for the merchants of
    /// this token, and moves the amount only to one of them.
    pub open spec fn recipient_to_merchant_transfer(
        self,
        auth: Auth,
        token: Address,
        from: Address,
        to: Address,
        amount: i128,
    ) -> Result<PlatformView, Error> {
        match self.token_at(token) {
            Err(e) => Err(e),
            Ok(coin) => match coin.issuance {
                None => Err(Error::IssuanceNotSet),
                Some(issuance) => if issuance != self.issuance_address {
                    Err(Error::ContractNotFound)
                } else {
                    match coin.recipient_to_merchant_transfer(
                        auth,
                        from,
                        to,
                        amount,
                        self.issuance.merchants_of(token),
                    ) {
                        Err(e) => Err(e),
                        Ok(next) => Ok(self.with_token(token, next)),
                    }
                },
            },
        }
    }

    /// `join_campaign` of the campaign at `campaign`.
    pub open spec fn join_campaign(
        self,
        auth: Auth,
        campaign: Address,
        username: String,
        recipient: Address,
    ) -> Result<PlatformView, Error> {
        self.on_campaign(
            campaign,
            |state: CampaignView| state.join_campaign(auth, username, recipient),
        )
    }

    /// `verify_recipients` of the campaign at `campaign`.
    pub open spec fn verify_recipients(
        self,
        auth: Auth,
        campaign: Address,
        usernames: Seq<Seq<char>>,
    ) -> Result<PlatformView, Error> {
        self.on_campaign(campaign, |state: CampaignView| state.verify_recipients(auth, usernames))
    }

    /// `set_campaign_end_status` of the campaign at `campaign`.
    pub open spec fn set_campaign_end_status(
        self,
        auth: Auth,
        campaign: Address,
        status: bool,
    ) -> Result<PlatformView, Error> {
        self.on_campaign(
            campaign,
            |state: CampaignView| state.set_campaign_end_status(auth, status),
        )
    }

    /// `set_campaign_info` of the campaign at `campaign`: the campaign asks
    /// its token for the token's display name and keeps it with its
    /// metadata.
    pub open spec fn set_campaign_info(
        self,
        campaign: Address,
        name: String,
        description: String,
        no_of_recipients: u32,
        token_address: Address,
        creator: Address,
        campaign_management: Address,
        location: String,
    ) -> Result<PlatformView, Error> {
        match self.campaign_at(campaign) {
            Err(e) => Err(e),
            Ok(state) => if state.owner.is_some() {
                Err(Error::CampaignInfoAlreadySet)
            } else {
                match self.token_at(token_address) {
                    Err(e) => Err(e),
                    Ok(coin) => if coin.metadata.is_none() {
                        Err(Error::TokenNotInitialized)
                    } else {
                        match state.set_campaign_info(
                            CampaignInfo {
                                name,
                                description,
                                no_of_recipients,
                                token_address,
                                token_name: coin.metadata.unwrap().name,
                                creator,
                                location,
                            },
                            campaign_management,
                        ) {
                            Err(e) => Err(e),
                            Ok(next) => Ok(self.with_campaign(campaign, next)),
                        }
                    },
                }
            },
        }
    }

    /// `transfer_tokens_to_recipient` of the campaign at `campaign`: the
    /// campaign books the amount for the recipient and has its token move the
    /// amount from the campaign's balance to the recipient.
    pub open spec fn transfer_tokens_to_recipient(
        self,
        auth: Auth,
        campaign: Address,
        to: Address,
        amount: i128,
    ) -> Result<PlatformView, Error> {
        match self.campaign_at(campaign) {
            Err(e) => Err(e),
            Ok(state) => match state.transfer_tokens_to_recipient(auth, to, amount) {
                Err(e) => Err(e),
                Ok(booked) => match self.token_at(state.token_address.unwrap()) {
                    Err(e) => Err(e),
                    Ok(coin) => match coin.transfer(
                        Auth { signer: auth.signer, invoker: Some(campaign) },
                        campaign,
                        to,
                        amount,
                    ) {
                        Err(e) => Err(e),
                        Ok(moved) => Ok(
                            self.with_campaign(campaign, booked).with_token(
                                state.token_address.unwrap(),
                                moved,
                            ),
                        ),
                    },
                },
            },
        }
    }

    /// What the campaign at `campaign` holds of its token.
    pub open spec fn campaign_balance(self, campaign: Address) -> Result<i128, Error> {
        match self.campaign_at(campaign) {
            Err(e) => Err(e),
            Ok(state) => match state.token_address {
                None => Err(Error::TokenAddressNotSet),
                Some(token) => match self.token_at(token) {
                    Err(e) => Err(e),
                    Ok(coin) => Ok(coin.held(campaign)),
                },
            },
        }
    }
}

/// Taking a token out and putting a token back is putting the token in
/// place; putting back the token that was there changes nothing.
pub proof fn lemma_token_round_trip(ledger: PlatformView, address: Address, coin: LocalCoinView)
    requires
        ledger.wf(),
        has_key(ledger.tokens, address),
    ensures
        ledger.with_token(address, LocalCoinView::blank()).with_token(address, coin)
            == ledger.with_token(address, coin),
        coin == value_of(ledger.tokens, address) ==> ledger.with_token(address, coin) == ledger,
{
    lemma_put_twice(ledger.tokens, address, LocalCoinView::blank(), coin);
    lemma_put_same(ledger.tokens, address);
    assert(ledger.with_token(address, LocalCoinView::blank()).with_token(address, coin)
        =~= ledger.with_token(address, coin));
    if coin == value_of(ledger.tokens, address) {
        assert(ledger.with_token(address, coin) =~= ledger);
    }
}

/// Taking a campaign out and putting a campaign back is putting the campaign
/// in place; putting back the campaign that was there changes nothing.
pub proof fn lemma_campaign_round_trip(
    ledger: PlatformView,
    address: Address,
    campaign: CampaignView,
)
    requires
        ledger.wf(),
        has_key(ledger.campaigns, address),
    ensures
        ledger.with_campaign(address, CampaignView::blank()).with_campaign(address, campaign)
            == ledger.with_campaign(address, campaign),
        campaign == value_of(ledger.campaigns, address) ==> ledger.with_campaign(address, campaign)
            == ledger,
{
    lemma_put_twice(ledger.campaigns, address, CampaignView::blank(), campaign);
    lemma_put_same(ledger.campaigns, address);
    assert(ledger.with_campaign(address, CampaignView::blank()).with_campaign(address, campaign)
        =~= ledger.with_campaign(address, campaign));
    if campaign == value_of(ledger.campaigns, address) {
        assert(ledger.with_campaign(address, campaign) =~= ledger);
    }
}

impl Platform {
    /// Whether a token lives at `address`.
    pub fn has_token(&self, address: Address) -> (found: bool)
        requires
            self@.wf(),
        ensures
            found == has_key(self@.tokens, address),
    {
        proof {
            lemma_map_values(self.tokens@, |coin: LocalCoin| coin@);
        }
        self.tokens.contains_key(address)
    }

    /// Whether a campaign lives at `address`.
    pub fn has_campaign(&self, address: Address) -> (found: bool)
        requires
            self@.wf(),
        ensures
            found == has_key(self@.campaigns, address),
    {
        proof {
            lemma_map_values(self.campaigns@, |campaign: Campaign| campaign@);
        }
        self.campaigns.contains_key(address)
    }

    /// Initializes the token at `token`.
    pub fn initialize_token(
        &mut self,
        token: Address,
        admin: Address,
        decimal: u32,
        name: String,
        symbol: String,
    ) -> (outcome: Result<(), Error>)
        requires
            old(self)@.wf(),
        ensures
            final(self)@.wf(),
            settles(
                old(self)@.initialize_token(token, admin, decimal, name, symbol),
                old(self)@,
                outcome,
                final(self)@,
            ),
    {
        if !self.has_token(token) {
            return Err(Error::ContractNotFound);
        }
        let mut coin = self.checkout_token(token);
        let outcome = coin.initialize(admin, decimal, name, symbol);
        self.checkin_token(token, coin);
        proof {
            lemma_token_round_trip(old(self)@, token, coin@);
        }
        outcome
    }

    /// Mints `amount` of the token at `token` to `to`.
    pub fn mint(&mut self, signer: Address, token: Address, to: Address, amount: i128) -> (outcome:
        Result<(), Error>)
        requires
            old(self)@.wf(),
        ensures
            final(self)@.wf(),
            settles(
                old(self)@.mint(Auth::signed_by(signer), token, to, amount),
                old(self)@,
                outcome,
                final(self)@,
            ),
    {
        let granted = Auth::signed_by(signer);
        let auth = &granted;
        if !self.has_token(token) {
            return Err(Error::ContractNotFound);
        }
        let mut coin = self.checkout_token(token);
        let outcome = coin.mint(auth, to, amount);
        self.checkin_token(token, coin);
        proof {
            lemma_token_round_trip(old(self)@, token, coin@);
        }
        outcome
    }

    /// Burns `amount` of what `from` holds of the token at `token`.
    pub fn burn(
        &mut self,
        signer: Address,
        token: Address,
        from: Address,
        amount: i128,
    ) -> (outcome: Result<(), Error>)
        requires
            old(self)@.wf(),
        ensures
            final(self)@.wf(),
            settles(
                old(self)@.burn(Auth::signed_by(signer), token, from, amount),
                old(self)@,
                outcome,
                final(self)@,
            ),
    {
        let granted = Auth::signed_by(signer);
        let auth = &granted;
        if !self.has_token(token) {
            return Err(Error::ContractNotFound);
        }
        let mut coin = self.checkout_token(token);
        let outcome = coin.burn(auth, from, amount);
        self.checkin_token(token, coin);
        proof {
            lemma_token_round_trip(old(self)@, token, coin@);
        }
        outcome
    }

    /// Moves `amount` of the token at `token` from `from` to `to`.
    pub fn transfer(
        &mut self,
        signer: Address,
        token: Address,
        from: Address,
        to: Address,
        amount: i128,
    ) -> (outcome: Result<(), Error>)
        requires
            old(self)@.wf(),
        ensures
            final(self)@.wf(),
            settles(
                old(self)@.transfer(Auth::signed_by(signer), token, from, to, amount),
                old(self)@,
                outcome,
                final(self)@,
            ),
    {
        let granted = Auth::signed_by(signer);
        let auth = &granted;
        if !self.has_token(token) {
            return Err(Error::ContractNotFound);
        }
        let mut coin = self.checkout_token(token);
        let outcome = coin.transfer(auth, from, to, amount);
        self.checkin_token(token, coin);
        proof {
            lemma_token_round_trip(old(self)@, token, coin@);
        }
        outcome
    }

    /// Hands the administration of the token at `token` over to `new_admin`.
    pub fn set_token_admin(
        &mut self,
        signer: Address,
        token: Address,
        new_admin: Address,
    ) -> (outcome: Result<(), Error>)
        requires
            old(self)@.wf(),
        ensures
            final(self)@.wf(),
            settles(
                old(self)@.set_token_admin(Auth::signed_by(signer), token, new_admin),
                old(self)@,
                outcome,
                final(self)@,
            ),
    {
        let granted = Auth::signed_by(signer);
        let auth = &granted;
        if !self.has_token(token) {
            return Err(Error::ContractNotFound);
        }
        let mut coin = self.checkout_token(token);
        let outcome = coin.set_admin(auth, new_admin);
        self.checkin_token(token, coin);
        proof {
            lemma_token_round_trip(old(self)@, token, coin@);
        }
        outcome
    }

    /// Binds the token at `token` to the issuance manager at `issuance`.
    pub fn set_token_issuance_management(&mut self, token: Address, issuance: Address) -> (outcome:
        Result<(), Error>)
        requires
            old(self)@.wf(),
        ensures
            final(self)@.wf(),
            settles(
                old(self)@.set_token_issuance_management(token, issuance),
                old(self)@,
                outcome,
                final(self)@,
            ),
    {
        if !self.has_token(token) {
            return Err(Error::ContractNotFound);
        }
        let mut coin = self.checkout_token(token);
        let outcome = coin.set_issuance_management(issuance);
        self.checkin_token(token, coin);
        proof {
            lemma_token_round_trip(old(self)@, token, coin@);
        }
        outcome
    }

    /// Moves `amount` of the token at `token` from a recipient to a merchant
    /// that the issuance manager has bound to the token.
    pub fn recipient_to_merchant_transfer(
        &mut self,
        signer: Address,
        token: Address,
        from: Address,
        to: Address,
        amount: i128,
    ) -> (outcome: Result<(), Error>)
        requires
            old(self)@.wf(),
        ensures
            final(self)@.wf(),
            settles(
                old(
                    self)@.recipient_to_merchant_transfer(Auth::signed_by(signer),
                    token,
                    from,
                    to,
                    amount,
                ),
                old(self)@,
                outcome,
                final(self)@,
            ),
    {
        let granted = Auth::signed_by(signer);
        let auth = &granted;
        let issuance = match self.token(token) {
            None => {
                return Err(Error::ContractNotFound);
            },
            Some(coin) => coin.get_issuance_management()?,
        };
        if issuance != self.issuance_address {
            return Err(Error::ContractNotFound);
        }
        let merchants = self.issuance.get_merchants_associated(token);
        let mut coin = self.checkout_token(token);
        let outcome = coin.recipient_to_merchant_transfer(auth, from, to, amount, &merchants);
        self.checkin_token(token, coin);
        proof {
            lemma_token_round_trip(old(self)@, token, coin@);
        }
        outcome
    }

    /// Lets `recipient` join the campaign at `campaign` under `username`.
    pub fn join_campaign(
        &mut self,
        signer: Address,
        campaign: Address,
        username: String,
        recipient: Address,
    ) -> (outcome: Result<(), Error>)
        requires
            old(self)@.wf(),
        ensures
            final(self)@.wf(),
            settles(
                old(self)@.join_campaign(Auth::signed_by(signer), campaign, username, recipient),
                old(self)@,
                outcome,
                final(self)@,
            ),
    {
        let granted = Auth::signed_by(signer);
        let auth = &granted;
        if !self.has_campaign(campaign) {
            return Err(Error::ContractNotFound);
        }
        let mut state = self.checkout_campaign(campaign);
        let outcome = state.join_campaign(auth, username, recipient);
        self.checkin_campaign(campaign, state);
        proof {
            lemma_campaign_round_trip(old(self)@, campaign, state@);
        }
        outcome
    }

    /// Verifies a batch of usernames of the campaign at `campaign`.
    pub fn verify_recipients(
        &mut self,
        signer: Address,
        campaign: Address,
        usernames: &Vec<String>,
    ) -> (outcome: Result<(), Error>)
        requires
            old(self)@.wf(),
        ensures
            final(self)@.wf(),
            settles(
                old(self)@.verify_recipients(Auth::signed_by(signer), campaign, texts(usernames@)),
                old(self)@,
                outcome,
                final(self)@,
            ),
    {
        let granted = Auth::signed_by(signer);
        let auth = &granted;
        if !self.has_campaign(campaign) {
            return Err(Error::ContractNotFound);
        }
        let mut state = self.checkout_campaign(campaign);
        let outcome = state.verify_recipients(auth, usernames);
        self.checkin_campaign(campaign, state);
        proof {
            lemma_campaign_round_trip(old(self)@, campaign, state@);
        }
        outcome
    }

    /// Ends or reopens the campaign at `campaign`.
    pub fn set_campaign_end_status(
        &mut self,
        signer: Address,
        campaign: Address,
        status: bool,
    ) -> (outcome: Result<(), Error>)
        requires
            old(self)@.wf(),
        ensures
            final(self)@.wf(),
            settles(
                old(self)@.set_campaign_end_status(Auth::signed_by(signer), campaign, status),
                old(self)@,
                outcome,
                final(self)@,
            ),
    {
        let granted = Auth::signed_by(signer);
        let auth = &granted;
        if !self.has_campaign(campaign) {
            return Err(Error::ContractNotFound);
        }
        let mut state = self.checkout_campaign(campaign);
        let outcome = state.set_campaign_end_status(auth, status);
        self.checkin_campaign(campaign, state);
        proof {
            lemma_campaign_round_trip(old(self)@, campaign, state@);
        }
        outcome
    }

    /// Binds the identity and metadata of the campaign at `campaign`.
    pub fn set_campaign_info(
        &mut self,
        campaign: Address,
        name: String,
        description: String,
        no_of_recipients: u32,
        token_address: Address,
        creator: Address,
        campaign_management: Address,
        location: String,
    ) -> (outcome: Result<(), Error>)
        requires
            old(self)@.wf(),
        ensures
            final(self)@.wf(),
            settles(
                old(self)@.set_campaign_info(
                    campaign,
                    name,
                    description,
                    no_of_recipients,
                    token_address,
                    creator,
                    campaign_management,
                    location,
                ),
                old(self)@,
                outcome,
                final(self)@,
            ),
    {
        match self.campaign(campaign) {
            None => {
                return Err(Error::ContractNotFound);
            },
            Some(state) => {
                if state.has_administrator() {
                    return Err(Error::CampaignInfoAlreadySet);
                }
            },
        }
        let token_name = match self.token(token_address) {
            None => {
                return Err(Error::ContractNotFound);
            },
            Some(coin) => {
                if !coin.has_administrator() {
                    return Err(Error::TokenNotInitialized);
                }
                coin.name()
            },
        };
        let mut state = self.checkout_campaign(campaign);
        let outcome = state.set_campaign_info(
            name,
            description,
            no_of_recipients,
            token_address,
            token_name,
            creator,
            campaign_management,
            location,
        );
        self.checkin_campaign(campaign, state);
        proof {
            lemma_campaign_round_trip(old(self)@, campaign, state@);
        }
        outcome
    }

    /// Has the campaign at `campaign` hand `amount` of its token to the
    /// verified recipient `to`.
    pub fn transfer_tokens_to_recipient(
        &mut self,
        signer: Address,
        campaign: Address,
        to: Address,
        amount: i128,
    ) -> (outcome: Result<(), Error>)
        requires
            old(self)@.wf(),
        ensures
            final(self)@.wf(),
            settles(
                old(
                    self)@.transfer_tokens_to_recipient(Auth::signed_by(signer),
                    campaign,
                    to,
                    amount,
                ),
                old(self)@,
                outcome,
                final(self)@,
            ),
    {
        let granted = Auth::signed_by(signer);
        let auth = &granted;
        let token = match self.campaign(campaign) {
            None => {
                return Err(Error::ContractNotFound);
            },
            Some(state) => {
                state.can_transfer_tokens_to_recipient(auth, to, amount)?;
                match state.get_token_address() {
                    Ok(token) => token,
                    Err(e) => {
                        return Err(e);
                    },
                }
            },
        };
        let through = auth.through(campaign);
        match self.token(token) {
            None => {
                return Err(Error::ContractNotFound);
            },
            Some(coin) => {
                coin.can_transfer(&through, campaign, to, amount)?;
            },
        }
        let ghost before = old(self)@;
        let ghost state0 = value_of(before.campaigns, campaign);
        let ghost coin0 = value_of(before.tokens, token);
        let mut state = self.checkout_campaign(campaign);
        let booked = state.transfer_tokens_to_recipient(auth, to, amount);
        self.checkin_campaign(campaign, state);
        proof {
            lemma_campaign_round_trip(before, campaign, state@);
            lemma_with_campaign_keeps_wf(before, campaign, state@);
        }
        let mut coin = self.checkout_token(token);
        let moved = coin.transfer(&through, campaign, to, amount);
        self.checkin_token(token, coin);
        proof {
            lemma_token_round_trip(before.with_campaign(campaign, state@), token, coin@);
        }
        Ok(())
    }

    /// What the campaign at `campaign` holds of its token.
    pub fn get_campaign_balance(&self, campaign: Address) -> (found: Result<i128, Error>)
        requires
            self@.wf(),
        ensures
            found == self@.campaign_balance(campaign),
    {
        let token = match self.campaign(campaign) {
            None => {
                return Err(Error::ContractNotFound);
            },
            Some(state) => state.get_token_address()?,
        };
        match self.token(token) {
            None => Err(Error::ContractNotFound),
            Some(coin) => Ok(coin.balance_of(campaign)),
        }
    }
}


// ---------------------------------------------------------------------------
// Entry points of the issuance manager
// ---------------------------------------------------------------------------

impl PlatformView {
    /// The authorization that a callee sees when the contract at `contract`,
    /// called under `auth`, calls into it.
    pub open spec fn through(auth: Auth, contract: Address) -> Auth {
        Auth { signer: auth.signer, invoker: Some(contract) }
    }

    /// `set_registry` of the issuance manager.
    pub open spec fn issuance_set_registry(self, auth: Auth, address: Address) -> Result<
        PlatformView,
        Error,
    > {
        match self.super_admin_at(self.issuance.registry) {
            Err(e) => Err(e),
            Ok(super_admin) => match self.issuance.set_registry(auth, super_admin, address) {
                Err(e) => Err(e),
                Ok(next) => Ok(PlatformView { issuance: next, ..self }),
            },
        }
    }

    /// `set_campaign_management` of the issuance manager.
    pub open spec fn issuance_set_campaign_management(self, auth: Auth, address: Address) -> Result<
        PlatformView,
        Error,
    > {
        match self.super_admin_at(self.issuance.registry) {
            Err(e) => Err(e),
            Ok(super_admin) => match self.issuance.set_campaign_management(
                auth,
                super_admin,
                address,
            ) {
                Err(e) => Err(e),
                Ok(next) => Ok(PlatformView { issuance: next, ..self }),
            },
        }
    }

    /// `issue_new_token`: the issuance manager has the registry name the
    /// super admin and the verified merchants, deploys a token at the address
    /// that the super admin and the next salt give, binds it to itself,
    /// initializes it with the campaign manager as its administrator, records
    /// its scope and its symbol and has the registry list it. The answer is
    /// the token's address.
    pub open spec fn issue_new_token(
        self,
        auth: Auth,
        decimal: u32,
        name: String,
        symbol: String,
        items: Seq<Seq<char>>,
        merchants: Seq<Address>,
    ) -> Result<(PlatformView, Address), Error> {
        match self.super_admin_at(self.issuance.registry) {
            Err(e) => Err(e),
            Ok(super_admin) => {
                let token = contract_id(super_admin, self.issuance.salt_counter);
                match self.issuance.issue_new_token(
                    auth,
                    super_admin,
                    self.registry.verified,
                    token,
                    decimal,
                    name,
                    symbol,
                    items,
                    merchants,
                ) {
                    Err(e) => Err(e),
                    Ok(issued) => if self.is_contract(token) {
                        Err(Error::ContractAlreadyExists)
                    } else {
                        match (LocalCoinView {
                            issuance: Some(self.issuance_address),
                            ..LocalCoinView::blank()
                        }).initialize(issued.1.admin, decimal, name, symbol) {
                            Err(e) => Err(e),
                            Ok(coin) => match self.registry.add_deployed_tokens(
                                Self::through(auth, self.issuance_address),
                                token,
                            ) {
                                Err(e) => Err(e),
                                Ok(registry) => Ok(
                                    (
                                        PlatformView {
                                            issuance: issued.0,
                                            registry,
                                            tokens: put(self.tokens, token, coin),
                                            ..self
                                        },
                                        token,
                                    ),
                                ),
                            },
                        }
                    },
                }
            },
        }
    }

    /// `add_token_items` of the issuance manager.
    pub open spec fn add_token_items(
        self,
        auth: Auth,
        token: Address,
        items: Seq<Seq<char>>,
    ) -> Result<PlatformView, Error> {
        match self.super_admin_at(self.issuance.registry) {
            Err(e) => Err(e),
            Ok(super_admin) => match self.issuance.add_token_items(auth, super_admin, token, items) {
                Err(e) => Err(e),
                Ok(next) => Ok(PlatformView { issuance: next, ..self }),
            },
        }
    }

    /// `add_token_merchants` of the issuance manager.
    pub open spec fn add_token_merchants(
        self,
        auth: Auth,
        token: Address,
        merchants: Seq<Address>,
    ) -> Result<PlatformView, Error> {
        match self.super_admin_at(self.issuance.registry) {
            Err(e) => Err(e),
            Ok(super_admin) => match self.issuance.add_token_merchants(
                auth,
                super_admin,
                self.registry.verified,
                token,
                merchants,
            ) {
                Err(e) => Err(e),
                Ok(next) => Ok(PlatformView { issuance: next, ..self }),
            },
        }
    }

    /// What the tokens at `tokens` report of `user`, in order. Every one of
    /// them must exist and be initialized.
    pub open spec fn reports(self, tokens: Seq<Address>, user: Address) -> Result<
        Seq<TokenReport>,
        Error,
    >
        decreases tokens.len(),
    {
        if tokens.len() == 0 {
            Ok(Seq::empty())
        } else {
            match self.reports(tokens.drop_last(), user) {
                Err(e) => Err(e),
                Ok(earlier) => match self.token_at(tokens.last()) {
                    Err(e) => Err(e),
                    Ok(coin) => if coin.metadata.is_none() {
                        Err(Error::TokenNotInitialized)
                    } else {
                        Ok(
                            earlier.push(
                                TokenReport {
                                    token: tokens.last(),
                                    name: coin.metadata.unwrap().name,
                                    balance: coin.held(user),
                                },
                            ),
                        )
                    },
                },
            }
        }
    }

    /// `get_balance_of_batch`: the positive holdings of `user` over all the
    /// tokens that the registry lists, keyed by token name.
    pub open spec fn balance_of_batch(self, user: Address) -> Result<
        Seq<(Seq<char>, (i128, Address))>,
        Error,
    > {
        match self.registry_at(self.issuance.registry) {
            Err(e) => Err(e),
            Ok(registry) => match self.reports(registry.tokens, user) {
                Err(e) => Err(e),
                Ok(reports) => Ok(holdings(reports)),
            },
        }
    }
}

impl Platform {
    /// The address that `found` holds, if it holds one.
    fn pointer(found: Result<Address, Error>) -> (pointer: Option<Address>)
        ensures
            pointer == match found {
                Ok(address) => Some(address),
                Err(_) => None::<Address>,
            },
    {
        match found {
            Ok(address) => Some(address),
            Err(_) => None,
        }
    }

    /// Whether a contract that has stored `pointer` as the registry's address
    /// finds the registry, and if not, why not.
    fn find_registry(&self, pointer: Option<Address>) -> (outcome: Result<(), Error>)
        ensures
            outcome == verdict(self@.registry_at(pointer)),
    {
        match pointer {
            None => Err(Error::AddressNotSet),
            Some(address) => if address == self.registry_address {
                Ok(())
            } else {
                Err(Error::ContractNotFound)
            },
        }
    }

    /// The super admin as a contract finds it that has stored `pointer` as
    /// the registry's address.
    fn find_super_admin(&self, pointer: Option<Address>) -> (found: Result<Address, Error>)
        ensures
            found == self@.super_admin_at(pointer),
    {
        self.find_registry(pointer)?;
        self.registry.get_super_admin()
    }

    /// The super admin as the issuance manager finds it.
    pub fn issuance_super_admin(&self) -> (found: Result<Address, Error>)
        ensures
            found == self@.super_admin_at(self@.issuance.registry),
    {
        self.find_super_admin(Self::pointer(self.issuance.get_registry()))
    }

    /// Points the issuance manager at another registry.
    pub fn issuance_set_registry(&mut self, signer: Address, address: Address) -> (outcome: Result<
        (),
        Error,
    >)
        requires
            old(self)@.wf(),
        ensures
            final(self)@.wf(),
            settles(
                old(self)@.issuance_set_registry(Auth::signed_by(signer), address),
                old(self)@,
                outcome,
                final(self)@,
            ),
    {
        let granted = Auth::signed_by(signer);
        let auth = &granted;
        let super_admin = self.issuance_super_admin()?;
        let outcome = self.issuance.set_registry(auth, super_admin, address);
        proof {
            if outcome.is_ok() {
                assert(self@ =~= old(self)@.issuance_set_registry(*auth, address).unwrap());
            } else {
                assert(self@ =~= old(self)@);
            }
        }
        outcome
    }

    /// Records the campaign manager with the issuance manager.
    pub fn issuance_set_campaign_management(
        &mut self,
        signer: Address,
        address: Address,
    ) -> (outcome: Result<(), Error>)
        requires
            old(self)@.wf(),
        ensures
            final(self)@.wf(),
            settles(
                old(self)@.issuance_set_campaign_management(Auth::signed_by(signer), address),
                old(self)@,
                outcome,
                final(self)@,
            ),
    {
        let granted = Auth::signed_by(signer);
        let auth = &granted;
        let super_admin = self.issuance_super_admin()?;
        let outcome = self.issuance.set_campaign_management(auth, super_admin, address);
        proof {
            if outcome.is_ok() {
                assert(self@ =~= old(self)@.issuance_set_campaign_management(
                    *auth,
                    address,
                ).unwrap());
            } else {
                assert(self@ =~= old(self)@);
            }
        }
        outcome
    }

    /// Issues a new token and answers with the address at which it is
    /// deployed.
    pub fn issue_new_token(
        &mut self,
        signer: Address,
        decimal: u32,
        name: String,
        symbol: String,
        items: Vec<String>,
        merchants: Vec<Address>,
    ) -> (outcome: Result<Address, Error>)
        requires
            old(self)@.wf(),
        ensures
            final(self)@.wf(),
            settles_with(
                old(self)@.issue_new_token(
                    Auth::signed_by(signer),
                    decimal,
                    name,
                    symbol,
                    texts(items@),
                    merchants@,
                ),
                old(self)@,
                outcome,
                final(self)@,
            ),
    {
        let granted = Auth::signed_by(signer);
        let auth = &granted;
        let super_admin = self.issuance_super_admin()?;
        let verified = copy_addresses(self.registry.get_verified_merchants());
        self.issuance.can_issue_new_token(auth, super_admin, &verified, &symbol, &merchants)?;
        let token = match derive_contract_address(super_admin, self.issuance.salt_counter()) {
            Some(token) => token,
            None => {
                return Err(Error::SaltsExhausted);
            },
        };
        if self.is_contract(token) {
            return Err(Error::ContractAlreadyExists);
        }
        let admin = match self.issuance.get_campaign_management() {
            Ok(admin) => admin,
            Err(e) => {
                return Err(e);
            },
        };
        let mut coin = LocalCoin::new();
        let bound = coin.set_issuance_management(self.issuance_address);
        coin.initialize(admin, decimal, name.clone(), symbol.clone())?;
        let through = auth.through(self.issuance_address);
        self.registry.can_add_deployed_tokens(&through)?;
        let ghost next = old(self)@.issue_new_token(
            *auth,
            decimal,
            name,
            symbol,
            texts(items@),
            merchants@,
        ).unwrap().0;
        proof {
            lemma_map_values(self.tokens@, |coin: LocalCoin| coin@);
            lemma_map_values_put(self.tokens@, |coin: LocalCoin| coin@, token, coin);
            lemma_new_token_keeps_wf(self@, token, coin@);
        }
        let issued = self.issuance.issue_new_token(
            auth,
            super_admin,
            &verified,
            token,
            decimal,
            name,
            symbol,
            items,
            merchants,
        );
        let listed = self.registry.add_deployed_tokens(&through, token);
        self.tokens.insert(token, coin);
        assert(self@ =~= next);
        Ok(token)
    }

    /// Binds more items to the token at `token`.
    pub fn add_token_items(
        &mut self,
        signer: Address,
        token: Address,
        items: &Vec<String>,
    ) -> (outcome: Result<(), Error>)
        requires
            old(self)@.wf(),
        ensures
            final(self)@.wf(),
            settles(
                old(self)@.add_token_items(Auth::signed_by(signer), token, texts(items@)),
                old(self)@,
                outcome,
                final(self)@,
            ),
    {
        let granted = Auth::signed_by(signer);
        let auth = &granted;
        let super_admin = self.issuance_super_admin()?;
        let outcome = self.issuance.add_token_items(auth, super_admin, token, items);
        proof {
            if outcome.is_ok() {
                assert(self@ =~= old(self)@.add_token_items(*auth, token, texts(items@)).unwrap());
            } else {
                assert(self@ =~= old(self)@);
            }
        }
        outcome
    }

    /// Binds more merchants to the token at `token`.
    pub fn add_token_merchants(
        &mut self,
        signer: Address,
        token: Address,
        merchants: &Vec<Address>,
    ) -> (outcome: Result<(), Error>)
        requires
            old(self)@.wf(),
        ensures
            final(self)@.wf(),
            settles(
                old(self)@.add_token_merchants(Auth::signed_by(signer), token, merchants@),
                old(self)@,
                outcome,
                final(self)@,
            ),
    {
        let granted = Auth::signed_by(signer);
        let auth = &granted;
        let super_admin = self.issuance_super_admin()?;
        let verified = copy_addresses(self.registry.get_verified_merchants());
        let outcome = self.issuance.add_token_merchants(
            auth,
            super_admin,
            &verified,
            token,
            merchants,
        );
        proof {
            if outcome.is_ok() {
                assert(self@ =~= old(self)@.add_token_merchants(*auth, token, merchants@).unwrap());
            } else {
                assert(self@ =~= old(self)@);
            }
        }
        outcome
    }

    /// The positive holdings of `user` over all the tokens that the registry
    /// lists, keyed by token name.
    pub fn get_balance_of_batch(&self, user: Address) -> (found: Result<
        NameMap<(i128, Address)>,
        Error,
    >)
        requires
            self@.wf(),
        ensures
            match self@.balance_of_batch(user) {
                Ok(batch) => found matches Ok(map) && map@ == batch && map.wf(),
                Err(e) => found matches Err(x) && x == e,
            },
    {
        self.find_registry(Self::pointer(self.issuance.get_registry()))?;
        let tokens = self.registry.get_available_tokens();
        let mut reports: Vec<TokenReport> = Vec::new();
        let mut i: usize = 0;
        assert(tokens@.take(0) =~= Seq::<Address>::empty());
        while i < tokens.len()
            invariant
                i <= tokens.len(),
                self@.wf(),
                tokens@ == self@.registry.tokens,
                self@.registry_at(self@.issuance.registry) == Ok::<RegistryView, Error>(
                    self@.registry,
                ),
                self@.reports(tokens@.take(i as int), user) == Ok::<Seq<TokenReport>, Error>(
                    reports@,
                ),
            decreases tokens.len() - i,
        {
            proof {
                assert(tokens@.take(i + 1).drop_last() =~= tokens@.take(i as int));
                assert(tokens@.take(i + 1).last() == tokens@[i as int]);
                assert(tokens@.take(tokens@.len() as int) =~= tokens@);
                lemma_reports_fail_early(self@, tokens@, i + 1, user);
            }
            let token = tokens[i];
            match self.token(token) {
                None => {
                    return Err(Error::ContractNotFound);
                },
                Some(coin) => {
                    if !coin.has_administrator() {
                        return Err(Error::TokenNotInitialized);
                    }
                    reports.push(
                        TokenReport { token, name: coin.name(), balance: coin.balance_of(user) },
                    );
                },
            }
            i = i + 1;
        }
        assert(tokens@.take(tokens@.len() as int) =~= tokens@);
        Ok(IssuanceManagement::get_balance_of_batch(&reports))
    }
}

/// Where the reports of the first `n` tokens fail, the reports of all of
/// them fail in the same way.
pub proof fn lemma_reports_fail_early(
    ledger: PlatformView,
    tokens: Seq<Address>,
    n: int,
    user: Address,
)
    requires
        0 <= n <= tokens.len(),
    ensures
        ledger.reports(tokens.take(n), user) matches Err(e) ==> ledger.reports(tokens, user)
            == Err::<Seq<TokenReport>, Error>(e),
    decreases tokens.len() - n,
{
    if n == tokens.len() {
        assert(tokens.take(n) =~= tokens);
    } else {
        assert(tokens.take(n + 1).drop_last() =~= tokens.take(n));
        lemma_reports_fail_early(ledger, tokens, n + 1, user);
    }
}


// ---------------------------------------------------------------------------
// Entry points of the campaign manager
// ---------------------------------------------------------------------------

impl PlatformView {
    /// `set_registry` of the campaign manager.
    pub open spec fn management_set_registry(self, auth: Auth, address: Address) -> Result<
        PlatformView,
        Error,
    > {
        match self.super_admin_at(self.management.registry) {
            Err(e) => Err(e),
            Ok(super_admin) => match self.management.set_registry(auth, super_admin, address) {
                Err(e) => Err(e),
                Ok(next) => Ok(PlatformView { management: next, ..self }),
            },
        }
    }

    /// `set_stable_coin_address` of the campaign manager.
    pub open spec fn set_stable_coin_address(self, auth: Auth, address: Address) -> Result<
        PlatformView,
        Error,
    > {
        match self.super_admin_at(self.management.registry) {
            Err(e) => Err(e),
            Ok(super_admin) => match self.management.set_stable_coin_address(
                auth,
                super_admin,
                address,
            ) {
                Err(e) => Err(e),
                Ok(next) => Ok(PlatformView { management: next, ..self }),
            },
        }
    }

    /// What `user` holds of the backing asset.
    pub open spec fn balance_of_stable_coin(self, user: Address) -> Result<i128, Error> {
        match self.management.stable_coin {
            None => Err(Error::AddressNotSet),
            Some(stable) => match self.token_at(stable) {
                Err(e) => Err(e),
                Ok(coin) => Ok(coin.held(user)),
            },
        }
    }

    /// `create_campaign`: on the creator's authority and for at least the
    /// minimum amount of a token that the registry lists, the campaign
    /// manager takes `amount` of the backing asset from the creator into its
    /// escrow, deploys a campaign at the address that the creator and the
    /// next salt give and binds its identity and metadata, mints `amount` of
    /// the token to the campaign, has the registry record the creator as the
    /// campaign's owner, and enters the campaign into its own books. The
    /// answer is the campaign's address.
    pub open spec fn create_campaign(
        self,
        auth: Auth,
        name: String,
        description: String,
        no_of_recipients: u32,
        token: Address,
        amount: i128,
        creator: Address,
        location: String,
    ) -> Result<(PlatformView, Address), Error> {
        let through = Self::through(auth, self.management_address);
        let campaign = contract_id(creator, self.management.salt_counter);
        if !auth.covers(creator) {
            Err(Error::Unauthorized)
        } else if amount < MIN_CAMPAIGN_AMOUNT {
            Err(Error::AmountBelowMinimum)
        } else {
            match self.registry_at(self.management.registry) {
                Err(e) => Err(e),
                Ok(registry) => match self.management.create_campaign(
                    auth,
                    registry.tokens,
                    campaign,
                    name,
                    description,
                    no_of_recipients,
                    token,
                    amount,
                    creator,
                ) {
                    Err(e) => Err(e),
                    Ok(booked) => match self.on_token(
                        self.management.stable_coin.unwrap(),
                        |coin: LocalCoinView|
                            coin.transfer(through, creator, self.management_address, amount),
                    ) {
                        Err(e) => Err(e),
                        Ok(escrowed) => if self.is_contract(campaign) {
                            Err(Error::ContractAlreadyExists)
                        } else {
                            match escrowed.token_at(token) {
                                Err(e) => Err(e),
                                Ok(coin) => if coin.metadata.is_none() {
                                    Err(Error::TokenNotInitialized)
                                } else {
                                    match coin.mint(through, campaign, amount) {
                                        Err(e) => Err(e),
                                        Ok(minted) => match registry.set_campaign_admin(
                                            through,
                                            campaign,
                                            creator,
                                        ) {
                                            Err(e) => Err(e),
                                            Ok(owned) => Ok(
                                                (
                                                    PlatformView {
                                                        management: booked.0,
                                                        registry: owned,
                                                        tokens: put(
                                                            escrowed.tokens,
                                                            token,
                                                            minted,
                                                        ),
                                                        campaigns: put(
                                                            self.campaigns,
                                                            campaign,
                                                            CampaignView::blank().set_campaign_info(
                                                                CampaignInfo {
                                                                    name,
                                                                    description,
                                                                    no_of_recipients,
                                                                    token_address: token,
                                                                    token_name: coin.metadata.unwrap().name,
                                                                    creator,
                                                                    location,
                                                                },
                                                                self.management_address,
                                                            ).unwrap(),
                                                        ),
                                                        ..self
                                                    },
                                                    campaign,
                                                ),
                                            ),
                                        },
                                    }
                                },
                            }
                        },
                    },
                },
            }
        }
    }

    /// `end_campaign`: the owner of a campaign that has not ended has the
    /// campaign manager end it, destroy the tokens that the campaign still
    /// holds, and pay the same amount of the backing asset out of the escrow
    /// back to the owner.
    pub open spec fn end_campaign(self, auth: Auth, campaign: Address, creator: Address) -> Result<
        PlatformView,
        Error,
    > {
        let through = Self::through(auth, self.management_address);
        if !auth.covers(creator) {
            Err(Error::Unauthorized)
        } else if !self.management.campaigns.contains(campaign) {
            Err(Error::CampaignNotFound)
        } else {
            match self.registry_at(self.management.registry) {
                Err(e) => Err(e),
                Ok(registry) => if lookup(registry.campaign_admins, campaign) != Some(creator) {
                    Err(Error::NotCampaignOwner)
                } else {
                    match self.campaign_at(campaign) {
                        Err(e) => Err(e),
                        Ok(state) => if state.is_ended {
                            Err(Error::CampaignAlreadyEnded)
                        } else if state.token_address.is_none() {
                            Err(Error::TokenAddressNotSet)
                        } else {
                            match self.token_at(state.token_address.unwrap()) {
                                Err(e) => Err(e),
                                Ok(coin) => match state.set_campaign_end_status(through, true) {
                                    Err(e) => Err(e),
                                    Ok(ended) => match coin.burn(
                                        through,
                                        campaign,
                                        coin.held(campaign),
                                    ) {
                                        Err(e) => Err(e),
                                        Ok(burned) => match self.management.stable_coin {
                                            None => Err(Error::AddressNotSet),
                                            Some(stable) => match self.with_token(
                                                state.token_address.unwrap(),
                                                burned,
                                            ).on_token(
                                                stable,
                                                |asset: LocalCoinView|
                                                    asset.transfer(
                                                        through,
                                                        self.management_address,
                                                        creator,
                                                        coin.held(campaign),
                                                    ),
                                            ) {
                                                Err(e) => Err(e),
                                                Ok(refunded) => Ok(
                                                    refunded.with_campaign(campaign, ended),
                                                ),
                                            },
                                        },
                                    },
                                },
                            }
                        },
                    }
                },
            }
        }
    }

    /// `request_campaign_settlement`: a verified merchant has the campaign
    /// manager destroy `amount` of what it holds of a listed token and pay
    /// the same amount of the backing asset out of the escrow to the super
    /// admin, and the manager publishes the request.
    pub open spec fn request_campaign_settlement(
        self,
        auth: Auth,
        from: Address,
        amount: i128,
        token: Address,
    ) -> Result<PlatformView, Error> {
        let through = Self::through(auth, self.management_address);
        if !auth.covers(from) {
            Err(Error::Unauthorized)
        } else if amount <= 0 {
            Err(Error::AmountNotPositive)
        } else {
            match self.registry_at(self.management.registry) {
                Err(e) => Err(e),
                Ok(registry) => if !registry.tokens.contains(token) {
                    Err(Error::InvalidToken)
                } else if !registry.verified.contains(from) {
                    Err(Error::CallerNotMerchant)
                } else {
                    match self.token_at(token) {
                        Err(e) => Err(e),
                        Ok(coin) => if amount > coin.held(from) {
                            Err(Error::InsufficientTokenForSettlement)
                        } else {
                            match coin.burn(through, from, amount) {
                                Err(e) => Err(e),
                                Ok(burned) => match self.management.stable_coin {
                                    None => Err(Error::AddressNotSet),
                                    Some(stable) => match registry.super_admin {
                                        None => Err(Error::SuperAdminNotSet),
                                        Some(super_admin) => match self.with_token(
                                            token,
                                            burned,
                                        ).token_at(stable) {
                                            Err(e) => Err(e),
                                            Ok(asset) => if amount > asset.held(
                                                self.management_address,
                                            ) {
                                                Err(Error::InsufficientStableCoin)
                                            } else {
                                                match asset.transfer(
                                                    through,
                                                    self.management_address,
                                                    super_admin,
                                                    amount,
                                                ) {
                                                    Err(e) => Err(e),
                                                    Ok(paid) => Ok(
                                                        PlatformView {
                                                            management: self.management.request_campaign_settlement(
                                                                auth,
                                                                from,
                                                                amount,
                                                                token,
                                                                registry.tokens,
                                                                registry.verified,
                                                                coin.held(from),
                                                                asset.held(self.management_address),
                                                            ).unwrap(),
                                                            ..self.with_token(
                                                                token,
                                                                burned,
                                                            ).with_token(stable, paid)
                                                        },
                                                    ),
                                                }
                                            },
                                        },
                                    },
                                },
                            }
                        },
                    }
                },
            }
        }
    }
}

impl Platform {
    /// The super admin as the campaign manager finds it.
    pub fn management_super_admin(&self) -> (found: Result<Address, Error>)
        ensures
            found == self@.super_admin_at(self@.management.registry),
    {
        self.find_super_admin(Self::pointer(self.management.get_registry()))
    }

    /// Points the campaign manager at another registry.
    pub fn management_set_registry(
        &mut self,
        signer: Address,
        address: Address,
    ) -> (outcome: Result<(), Error>)
        requires
            old(self)@.wf(),
        ensures
            final(self)@.wf(),
            settles(
                old(self)@.management_set_registry(Auth::signed_by(signer), address),
                old(self)@,
                outcome,
                final(self)@,
            ),
    {
        let granted = Auth::signed_by(signer);
        let auth = &granted;
        let super_admin = self.management_super_admin()?;
        let outcome = self.management.set_registry(auth, super_admin, address);
        proof {
            if outcome.is_ok() {
                assert(self@ =~= old(self)@.management_set_registry(*auth, address).unwrap());
            } else {
                assert(self@ =~= old(self)@);
            }
        }
        outcome
    }

    /// Records the contract of the backing asset with the campaign manager.
    pub fn set_stable_coin_address(
        &mut self,
        signer: Address,
        address: Address,
    ) -> (outcome: Result<(), Error>)
        requires
            old(self)@.wf(),
        ensures
            final(self)@.wf(),
            settles(
                old(self)@.set_stable_coin_address(Auth::signed_by(signer), address),
                old(self)@,
                outcome,
                final(self)@,
            ),
    {
        let granted = Auth::signed_by(signer);
        let auth = &granted;
        let super_admin = self.management_super_admin()?;
        let outcome = self.management.set_stable_coin_address(auth, super_admin, address);
        proof {
            if outcome.is_ok() {
                assert(self@ =~= old(self)@.set_stable_coin_address(*auth, address).unwrap());
            } else {
                assert(self@ =~= old(self)@);
            }
        }
        outcome
    }

    /// What `user` holds of the backing asset.
    pub fn get_balance_of_stable_coin(&self, user: Address) -> (found: Result<i128, Error>)
        requires
            self@.wf(),
        ensures
            found == self@.balance_of_stable_coin(user),
    {
        let stable = self.management.get_stable_coin()?;
        match self.token(stable) {
            None => Err(Error::ContractNotFound),
            Some(coin) => Ok(coin.balance_of(user)),
        }
    }

    /// Creates a campaign and answers with the address at which it is
    /// deployed.
    pub fn create_campaign(
        &mut self,
        signer: Address,
        name: String,
        description: String,
        no_of_recipients: u32,
        token_address: Address,
        amount: i128,
        creator: Address,
        location: String,
    ) -> (outcome: Result<Address, Error>)
        requires
            old(self)@.wf(),
        ensures
            final(self)@.wf(),
            settles_with(
                old(self)@.create_campaign(
                    Auth::signed_by(signer),
                    name,
                    description,
                    no_of_recipients,
                    token_address,
                    amount,
                    creator,
                    location,
                ),
                old(self)@,
                outcome,
                final(self)@,
            ),
    {
        let granted = Auth::signed_by(signer);
        let auth = &granted;
        let ghost before = old(self)@;
        let through = auth.through(self.management_address);
        if !auth.authorizes(creator) {
            return Err(Error::Unauthorized);
        }
        if amount < MIN_CAMPAIGN_AMOUNT {
            return Err(Error::AmountBelowMinimum);
        }
        self.find_registry(Self::pointer(self.management.get_registry()))?;
        let listed = copy_addresses(self.registry.get_available_tokens());
        self.management.can_create_campaign(auth, &listed, token_address, amount, creator)?;
        let campaign = match derive_contract_address(creator, self.management.salt_counter()) {
            Some(campaign) => campaign,
            None => {
                return Err(Error::SaltsExhausted);
            },
        };
        let stable = match self.management.get_stable_coin() {
            Ok(stable) => stable,
            Err(e) => {
                return Err(e);
            },
        };
        match self.token(stable) {
            None => {
                return Err(Error::ContractNotFound);
            },
            Some(asset) => {
                asset.can_transfer(&through, creator, self.management_address, amount)?;
            },
        }
        if self.is_contract(campaign) {
            return Err(Error::ContractAlreadyExists);
        }
        let ghost asset0 = value_of(before.tokens, stable);
        let ghost escrowed = asset0.transfer(
            through,
            creator,
            before.management_address,
            amount,
        ).unwrap();
        proof {
            lemma_token_is_wf(before, stable);
            lemma_transfer_keeps_wf(asset0, through, creator, before.management_address, amount);
            lemma_with_token_keeps_wf(before, stable, escrowed);
        }
        let token_name = match self.token(token_address) {
            None => {
                return Err(Error::ContractNotFound);
            },
            Some(coin) => {
                if !coin.has_administrator() {
                    return Err(Error::TokenNotInitialized);
                }
                coin.can_mint(&through, campaign, amount)?;
                coin.name()
            },
        };
        self.registry.can_set_campaign_admin(&through)?;
        let ghost next = before.create_campaign(
            *auth,
            name,
            description,
            no_of_recipients,
            token_address,
            amount,
            creator,
            location,
        ).unwrap().0;
        // From here on every step is known to succeed.
        let mut asset = self.checkout_token(stable);
        let moved = asset.transfer(&through, creator, self.management_address, amount);
        self.checkin_token(stable, asset);
        proof {
            lemma_token_round_trip(before, stable, asset@);
        }
        let ghost after_escrow = self@;
        let mut coin = self.checkout_token(token_address);
        proof {
            lemma_mint_keeps_wf(coin@, through, campaign, amount);
        }
        let minted = coin.mint(&through, campaign, amount);
        self.checkin_token(token_address, coin);
        proof {
            lemma_token_round_trip(after_escrow, token_address, coin@);
        }
        let ghost after_mint = self@;
        let mut state = Campaign::new();
        let label = name.clone();
        let told = description.clone();
        let bound = state.set_campaign_info(
            label,
            told,
            no_of_recipients,
            token_address,
            token_name,
            creator,
            self.management_address,
            location,
        );
        proof {
            lemma_map_values(self.campaigns@, |campaign: Campaign| campaign@);
            lemma_map_values_put(self.campaigns@, |campaign: Campaign| campaign@, campaign, state);
            lemma_new_campaign_keeps_wf(after_mint, campaign, state@);
        }
        self.campaigns.insert(campaign, state);
        let owned = self.registry.set_campaign_admin(&through, campaign, creator);
        let booked = self.management.create_campaign(
            auth,
            &listed,
            campaign,
            name,
            description,
            no_of_recipients,
            token_address,
            amount,
            creator,
        );
        assert(self@ =~= next);
        Ok(campaign)
    }

    /// Ends the campaign at `campaign` and refunds what it has not handed
    /// out.
    pub fn end_campaign(
        &mut self,
        signer: Address,
        campaign: Address,
        creator: Address,
    ) -> (outcome: Result<(), Error>)
        requires
            old(self)@.wf(),
        ensures
            final(self)@.wf(),
            settles(
                old(self)@.end_campaign(Auth::signed_by(signer), campaign, creator),
                old(self)@,
                outcome,
                final(self)@,
            ),
    {
        let granted = Auth::signed_by(signer);
        let auth = &granted;
        let ghost before = old(self)@;
        let through = auth.through(self.management_address);
        if !auth.authorizes(creator) {
            return Err(Error::Unauthorized);
        }
        if !contains_address(self.management.get_campaigns(), campaign) {
            return Err(Error::CampaignNotFound);
        }
        self.find_registry(Self::pointer(self.management.get_registry()))?;
        let owned = match self.registry.get_campaign_admin(campaign) {
            Ok(owner) => owner == creator,
            Err(_) => false,
        };
        if !owned {
            return Err(Error::NotCampaignOwner);
        }
        let token = match self.campaign(campaign) {
            None => {
                return Err(Error::ContractNotFound);
            },
            Some(state) => {
                if state.is_ended() {
                    return Err(Error::CampaignAlreadyEnded);
                }
                let token = state.get_token_address()?;
                token
            },
        };
        let balance = match self.token(token) {
            None => {
                return Err(Error::ContractNotFound);
            },
            Some(coin) => coin.balance_of(campaign),
        };
        match self.campaign(campaign) {
            None => {
                return Err(Error::ContractNotFound);
            },
            Some(state) => {
                state.can_set_campaign_end_status(&through)?;
            },
        }
        match self.token(token) {
            None => {
                return Err(Error::ContractNotFound);
            },
            Some(coin) => {
                coin.can_burn(&through, campaign, balance)?;
            },
        }
        let stable = self.management.get_stable_coin()?;
        let refund = self.management.end_campaign(
            auth,
            campaign,
            creator,
            Some(creator),
            false,
            balance,
        )?;
        let ghost coin0 = value_of(before.tokens, token);
        let ghost burned = coin0.burn(through, campaign, balance).unwrap();
        proof {
            lemma_token_is_wf(before, token);
            lemma_campaign_is_wf(before, campaign);
            lemma_burn_keeps_wf(coin0, through, campaign, balance);
            lemma_with_token_keeps_wf(before, token, burned);
        }
        // The escrow as it stands once the campaign's tokens are destroyed.
        let escrow = match self.token(stable) {
            None => {
                return Err(Error::ContractNotFound);
            },
            Some(asset) => asset.balance_of(self.management_address),
        };
        if escrow < balance {
            return Err(Error::InsufficientBalance);
        }
        let ghost next = before.end_campaign(*auth, campaign, creator).unwrap();
        // From here on every step is known to succeed.
        let mut coin = self.checkout_token(token);
        let destroyed = coin.burn(&through, campaign, balance);
        self.checkin_token(token, coin);
        proof {
            lemma_token_round_trip(before, token, coin@);
        }
        let ghost after_burn = self@;
        let mut asset = self.checkout_token(stable);
        proof {
            lemma_transfer_keeps_wf(asset@, through, before.management_address, creator, balance);
        }
        let refunded = asset.transfer(&through, self.management_address, creator, refund);
        self.checkin_token(stable, asset);
        proof {
            lemma_token_round_trip(after_burn, stable, asset@);
        }
        let ghost after_refund = self@;
        let mut state = self.checkout_campaign(campaign);
        let ended = state.set_campaign_end_status(&through, true);
        self.checkin_campaign(campaign, state);
        proof {
            lemma_campaign_round_trip(after_refund, campaign, state@);
        }
        assert(self@ =~= next);
        Ok(())
    }

    /// Settles `amount` of the token at `token_address` for the merchant
    /// `from`.
    pub fn request_campaign_settlement(
        &mut self,
        signer: Address,
        from: Address,
        amount: i128,
        token_address: Address,
    ) -> (outcome: Result<(), Error>)
        requires
            old(self)@.wf(),
        ensures
            final(self)@.wf(),
            settles(
                old(
                    self)@.request_campaign_settlement(Auth::signed_by(signer),
                    from,
                    amount,
                    token_address,
                ),
                old(self)@,
                outcome,
                final(self)@,
            ),
    {
        let granted = Auth::signed_by(signer);
        let auth = &granted;
        let ghost before = old(self)@;
        let through = auth.through(self.management_address);
        if !auth.authorizes(from) {
            return Err(Error::Unauthorized);
        }
        if amount <= 0 {
            return Err(Error::AmountNotPositive);
        }
        self.find_registry(Self::pointer(self.management.get_registry()))?;
        if !contains_address(self.registry.get_available_tokens(), token_address) {
            return Err(Error::InvalidToken);
        }
        if !contains_address(self.registry.get_verified_merchants(), from) {
            return Err(Error::CallerNotMerchant);
        }
        match self.token(token_address) {
            None => {
                return Err(Error::ContractNotFound);
            },
            Some(coin) => {
                if amount > coin.balance_of(from) {
                    return Err(Error::InsufficientTokenForSettlement);
                }
                coin.can_burn(&through, from, amount)?;
            },
        }
        let stable = self.management.get_stable_coin()?;
        let super_admin = self.registry.get_super_admin()?;
        let ghost coin0 = value_of(before.tokens, token_address);
        let ghost burned = coin0.burn(through, from, amount).unwrap();
        proof {
            lemma_token_is_wf(before, token_address);
            lemma_burn_keeps_wf(coin0, through, from, amount);
            lemma_with_token_keeps_wf(before, token_address, burned);
        }
        // The escrow as it stands once the merchant's tokens are destroyed.
        let held = match self.token(stable) {
            None => {
                return Err(Error::ContractNotFound);
            },
            Some(asset) => asset.balance_of(self.management_address),
        };
        let escrow = if stable == token_address && from == self.management_address {
            held - amount
        } else {
            held
        };
        if amount > escrow {
            return Err(Error::InsufficientStableCoin);
        }
        let ghost next = before.request_campaign_settlement(
            *auth,
            from,
            amount,
            token_address,
        ).unwrap();
        let merchant_balance = match self.token(token_address) {
            Some(coin) => coin.balance_of(from),
            None => 0,
        };
        let listed = copy_addresses(self.registry.get_available_tokens());
        let verified = copy_addresses(self.registry.get_verified_merchants());
        // From here on every step is known to succeed.
        let mut coin = self.checkout_token(token_address);
        let destroyed = coin.burn(&through, from, amount);
        self.checkin_token(token_address, coin);
        proof {
            lemma_token_round_trip(before, token_address, coin@);
        }
        let ghost after_burn = self@;
        let mut asset = self.checkout_token(stable);
        proof {
            lemma_transfer_keeps_wf(
                asset@,
                through,
                before.management_address,
                super_admin,
                amount,
            );
        }
        let paid = asset.transfer(&through, self.management_address, super_admin, amount);
        self.checkin_token(stable, asset);
        proof {
            lemma_token_round_trip(after_burn, stable, asset@);
        }
        let booked = self.management.request_campaign_settlement(
            auth,
            from,
            amount,
            token_address,
            &listed,
            &verified,
            merchant_balance,
            escrow,
        );
        assert(self@ =~= next);
        Ok(())
    }
}


// ---------------------------------------------------------------------------
// Laws of the ledger
// ---------------------------------------------------------------------------

/// A merchant that is not verified gets no settlement, whether it has
/// registered or not: an authorized request for a positive amount of a listed
/// token is answered with "caller not merchant", and no request succeeds.
pub proof fn lemma_unverified_merchant_is_refused(
    ledger: PlatformView,
    auth: Auth,
    from: Address,
    amount: i128,
    token: Address,
)
    requires
        !ledger.registry.verified.contains(from),
    ensures
        ledger.request_campaign_settlement(auth, from, amount, token).is_err(),
        auth.covers(from) && amount > 0 && ledger.management.registry == Some(
            ledger.registry_address,
        ) && ledger.registry.tokens.contains(token) ==> ledger.request_campaign_settlement(
            auth,
            from,
            amount,
            token,
        ) == Err::<PlatformView, Error>(Error::CallerNotMerchant),
{
}

/// A token moves from a recipient only to a merchant that the issuance
/// manager has bound to it: for any other receiver the transfer is refused,
/// and where the token exists and is bound to the issuance manager, it is
/// refused as "not accepted by the merchant".
pub proof fn lemma_ineligible_merchant_is_refused(
    ledger: PlatformView,
    auth: Auth,
    token: Address,
    from: Address,
    to: Address,
    amount: i128,
)
    requires
        !ledger.issuance.merchants_of(token).contains(to),
    ensures
        ledger.recipient_to_merchant_transfer(auth, token, from, to, amount).is_err(),
        ledger.token_at(token) matches Ok(coin) && coin.issuance == Some(ledger.issuance_address)
            ==> ledger.recipient_to_merchant_transfer(auth, token, from, to, amount) == Err::<
            PlatformView,
            Error,
        >(Error::MerchantNotAccepted),
{
}

/// No campaign is created for less than the minimum amount.
pub proof fn lemma_campaign_below_minimum_is_refused(
    ledger: PlatformView,
    auth: Auth,
    name: String,
    description: String,
    no_of_recipients: u32,
    token: Address,
    amount: i128,
    creator: Address,
    location: String,
)
    requires
        amount < MIN_CAMPAIGN_AMOUNT,
    ensures
        ledger.create_campaign(
            auth,
            name,
            description,
            no_of_recipients,
            token,
            amount,
            creator,
            location,
        ).is_err(),
        auth.covers(creator) ==> ledger.create_campaign(
            auth,
            name,
            description,
            no_of_recipients,
            token,
            amount,
            creator,
            location,
        ) == Err::<(PlatformView, Address), Error>(Error::AmountBelowMinimum),
{
}

/// On the ledger, a campaign hands nothing to a recipient that it has not
/// verified, whatever the amount is.
pub proof fn lemma_unverified_recipient_is_refused(
    ledger: PlatformView,
    auth: Auth,
    campaign: Address,
    to: Address,
    amount: i128,
)
    requires
        ledger.campaign_at(campaign) matches Ok(state) ==> !state.verified.contains(to),
    ensures
        ledger.transfer_tokens_to_recipient(auth, campaign, to, amount).is_err(),
{
}

/// A campaign that is ended right after its creation, before it has handed
/// out anything, refunds its creator in full: the creator gets back exactly
/// the amount that went into the escrow, the campaign holds no token any
/// more, and the campaign is ended.
///
/// The law speaks of a campaign deployed at an address that held none of the
/// token before, of a creator that is neither the campaign manager nor the
/// campaign itself, and of a token whose burned total can take the amount.
#[verifier::rlimit(40)]
pub proof fn lemma_create_then_end_refunds(
    ledger: PlatformView,
    auth: Auth,
    name: String,
    description: String,
    no_of_recipients: u32,
    token: Address,
    amount: i128,
    creator: Address,
    location: String,
)
    requires
        ledger.wf(),
        ledger.create_campaign(
            auth,
            name,
            description,
            no_of_recipients,
            token,
            amount,
            creator,
            location,
        ).is_ok(),
        creator != ledger.management_address,
        creator != contract_id(creator, ledger.management.salt_counter),
        ledger.token_at(token).unwrap().held(contract_id(creator, ledger.management.salt_counter))
            == 0,
        ledger.token_at(token).unwrap().total_burned + amount <= i128::MAX,
    ensures
        ({
            let made = ledger.create_campaign(
                auth,
                name,
                description,
                no_of_recipients,
                token,
                amount,
                creator,
                location,
            ).unwrap();
            let created = made.0;
            let campaign = made.1;
            &&& created.wf()
            &&& created.balance_of_stable_coin(creator).is_ok()
            &&& created.balance_of_stable_coin(creator).unwrap() + amount
                == ledger.balance_of_stable_coin(creator).unwrap()
            &&& created.campaign_balance(campaign) == Ok::<i128, Error>(amount)
            &&& created.end_campaign(auth, campaign, creator) matches Ok(ended) && {
                &&& ended.wf()
                &&& ended.balance_of_stable_coin(creator) == ledger.balance_of_stable_coin(creator)
                &&& ended.balance_of_stable_coin(creator).unwrap()
                    == created.balance_of_stable_coin(creator).unwrap() + amount
                &&& ended.campaign_balance(campaign) == Ok::<i128, Error>(0)
                &&& ended.campaign_at(campaign).unwrap().is_ended
            }
        }),
{
    let campaign = contract_id(creator, ledger.management.salt_counter);
    let through = PlatformView::through(auth, ledger.management_address);
    let manager = ledger.management_address;
    let stable = ledger.management.stable_coin.unwrap();
    let created = ledger.create_campaign(
        auth,
        name,
        description,
        no_of_recipients,
        token,
        amount,
        creator,
        location,
    ).unwrap().0;
    // The creation, step by step.
    let asset0 = value_of(ledger.tokens, stable);
    lemma_token_is_wf(ledger, stable);
    lemma_transfer_keeps_wf(asset0, through, creator, manager, amount);
    let asset1 = asset0.transfer(through, creator, manager, amount).unwrap();
    let escrowed = ledger.with_token(stable, asset1);
    lemma_with_token_keeps_wf(ledger, stable, asset1);
    let coin1 = value_of(escrowed.tokens, token);
    lemma_token_is_wf(escrowed, token);
    lemma_mint_keeps_wf(coin1, through, campaign, amount);
    let coin2 = coin1.mint(through, campaign, amount).unwrap();
    let minted = escrowed.with_token(token, coin2);
    lemma_with_token_keeps_wf(escrowed, token, coin2);
    let state = CampaignView::blank().set_campaign_info(
        CampaignInfo {
            name,
            description,
            no_of_recipients,
            token_address: token,
            token_name: coin1.metadata.unwrap().name,
            creator,
            location,
        },
        manager,
    ).unwrap();
    assert(state.wf());
    lemma_put_new(ledger.campaigns, campaign, state);
    lemma_put_existing(ledger.tokens, stable, asset1);
    lemma_new_campaign_keeps_wf(minted, campaign, state);
    lemma_put(ledger.registry.campaign_admins, campaign, creator);
    lemma_put(
        ledger.management.campaigns_name,
        campaign,
        name,
    );
    assert(created.tokens == minted.tokens);
    assert(created.campaigns == put(ledger.campaigns, campaign, state));
    assert(created.management.campaigns == ledger.management.campaigns.push(campaign));
    assert(created.management.campaigns[ledger.management.campaigns.len() as int] == campaign);
    assert(created.management.campaigns.contains(campaign));
    assert(lookup(created.registry.campaign_admins, campaign) == Some(creator));
    assert(created.wf()) by {
        lemma_put(
            ledger.management.creator_campaigns,
            creator,
            ledger.management.campaigns_of(creator).push(
                CampaignDetail {
                    campaign,
                    token,
                    token_minted: amount,
                    info: CampaignSummary {
                        name,
                        description,
                        no_of_recipients,
                    },
                },
            ),
        );
        assert(created =~= PlatformView {
            management: created.management,
            registry: created.registry,
            ..minted.with_campaign(campaign, state)
        });
    }
    // What the campaign holds right after its creation.
    assert(coin2.balance(campaign) == amount) by {
        if token == stable {
            assert(coin1 == asset1);
        } else {
            assert(coin1 == value_of(ledger.tokens, token));
        }
    }
    assert(created.token_at(token) == Ok::<LocalCoinView, Error>(coin2));
    assert(created.campaign_at(campaign) == Ok::<CampaignView, Error>(state));
    // The end, step by step.
    lemma_burn_keeps_wf(coin2, through, campaign, amount);
    assert(coin2.total_burned == ledger.token_at(token).unwrap().total_burned);
    let coin3 = coin2.burn(through, campaign, amount).unwrap();
    let burned = created.with_token(token, coin3);
    lemma_with_token_keeps_wf(created, token, coin3);
    let asset2 = value_of(burned.tokens, stable);
    lemma_token_is_wf(burned, stable);
    lemma_token_is_wf(created, stable);
    lemma_transfer_keeps_wf(asset2, through, manager, creator, amount);
    assert(asset2.balance(manager) >= amount) by {
        if token == stable {
            assert(asset2 == coin3);
        } else {
            assert(asset2 == asset1);
        }
    }
    let asset3 = asset2.transfer(through, manager, creator, amount).unwrap();
    let refunded = burned.with_token(stable, asset3);
    lemma_with_token_keeps_wf(burned, stable, asset3);
    lemma_campaign_is_wf(refunded, campaign);
    let ended_state = state.set_campaign_end_status(through, true).unwrap();
    let ended = refunded.with_campaign(campaign, ended_state);
    lemma_with_campaign_keeps_wf(refunded, campaign, ended_state);
    assert(created.end_campaign(auth, campaign, creator) == Ok::<PlatformView, Error>(ended));
    assert(ended.token_at(stable) == Ok::<LocalCoinView, Error>(asset3));
    assert(ended.token_at(token).unwrap().balance(campaign) == 0) by {
        if token == stable {
            assert(ended.token_at(token).unwrap() == asset3);
        } else {
            assert(ended.token_at(token).unwrap() == coin3);
        }
    }
    assert(asset3.held(creator) == asset0.held(creator));
}

/// A settlement pays out of the escrow what it destroys of the token: the
/// merchant's holding and the token's supply fall by the amount, the escrow
/// falls by the amount, and the super admin receives the amount of the
/// backing asset, whose supply stays as it is.
///
/// The law speaks of a token other than the backing asset and of a super
/// admin other than the campaign manager.
pub proof fn lemma_settlement_pays_what_it_burns(
    ledger: PlatformView,
    auth: Auth,
    from: Address,
    amount: i128,
    token: Address,
)
    requires
        ledger.wf(),
        ledger.request_campaign_settlement(auth, from, amount, token).is_ok(),
        ledger.management.stable_coin != Some(token),
        ledger.registry.super_admin != Some(ledger.management_address),
    ensures
        ({
            let settled = ledger.request_campaign_settlement(auth, from, amount, token).unwrap();
            let stable = ledger.management.stable_coin.unwrap();
            let manager = ledger.management_address;
            let super_admin = ledger.registry.super_admin.unwrap();
            let coin = ledger.token_at(token).unwrap();
            let asset = ledger.token_at(stable).unwrap();
            &&& settled.wf()
            &&& settled.token_at(token) matches Ok(burned) && {
                &&& burned.held(from) == coin.held(from) - amount
                &&& burned.total_supply == coin.total_supply - amount
                &&& burned.total_burned == coin.total_burned + amount
            }
            &&& settled.token_at(stable) matches Ok(paid) && {
                &&& paid.held(manager) == asset.held(manager) - amount
                &&& paid.held(super_admin) == asset.held(super_admin) + amount
                &&& paid.total_supply == asset.total_supply
            }
        }),
{
    let through = PlatformView::through(auth, ledger.management_address);
    let manager = ledger.management_address;
    let stable = ledger.management.stable_coin.unwrap();
    let super_admin = ledger.registry.super_admin.unwrap();
    let coin = value_of(ledger.tokens, token);
    lemma_token_is_wf(ledger, token);
    lemma_burn_keeps_wf(coin, through, from, amount);
    let burned = coin.burn(through, from, amount).unwrap();
    let after_burn = ledger.with_token(token, burned);
    lemma_with_token_keeps_wf(ledger, token, burned);
    let asset = value_of(after_burn.tokens, stable);
    assert(asset == value_of(ledger.tokens, stable));
    lemma_token_is_wf(after_burn, stable);
    lemma_transfer_keeps_wf(asset, through, manager, super_admin, amount);
    let paid = asset.transfer(through, manager, super_admin, amount).unwrap();
    let after_payment = after_burn.with_token(stable, paid);
    lemma_with_token_keeps_wf(after_burn, stable, paid);
    let settled = ledger.request_campaign_settlement(auth, from, amount, token).unwrap();
    assert(settled =~= PlatformView { management: settled.management, ..after_payment });
    assert(settled.tokens == after_payment.tokens);
    assert(after_burn.token_at(token) == Ok::<LocalCoinView, Error>(burned));
    assert(after_payment.token_at(stable) == Ok::<LocalCoinView, Error>(paid));
    assert(after_payment.token_at(token) == after_burn.token_at(token));
    assert(settled.token_at(stable) == after_payment.token_at(stable));
    assert(settled.token_at(token) == after_payment.token_at(token));
}

/// A creation escrows what it mints: the creator pays the amount of the
/// backing asset into the escrow, whose supply stays as it is, and the new
/// campaign holds the amount of the token, by which the token's supply has
/// grown.
///
/// The law speaks of a token other than the backing asset and of a creator
/// other than the campaign manager.
pub proof fn lemma_creation_escrows_what_it_mints(
    ledger: PlatformView,
    auth: Auth,
    name: String,
    description: String,
    no_of_recipients: u32,
    token: Address,
    amount: i128,
    creator: Address,
    location: String,
)
    requires
        ledger.wf(),
        ledger.create_campaign(
            auth,
            name,
            description,
            no_of_recipients,
            token,
            amount,
            creator,
            location,
        ).is_ok(),
        ledger.management.stable_coin != Some(token),
        creator != ledger.management_address,
    ensures
        ({
            let made = ledger.create_campaign(
                auth,
                name,
                description,
                no_of_recipients,
                token,
                amount,
                creator,
                location,
            ).unwrap();
            let stable = ledger.management.stable_coin.unwrap();
            let manager = ledger.management_address;
            let coin = ledger.token_at(token).unwrap();
            let asset = ledger.token_at(stable).unwrap();
            &&& made.1 == contract_id(creator, ledger.management.salt_counter)
            &&& !ledger.is_contract(made.1)
            &&& made.0.token_at(stable) matches Ok(escrowed) && {
                &&& escrowed.held(manager) == asset.held(manager) + amount
                &&& escrowed.held(creator) == asset.held(creator) - amount
                &&& escrowed.total_supply == asset.total_supply
            }
            &&& made.0.token_at(token) matches Ok(minted) && {
                &&& minted.held(made.1) == coin.held(made.1) + amount
                &&& minted.total_supply == coin.total_supply + amount
            }
            &&& made.0.campaign_at(made.1) matches Ok(state) && {
                &&& state.owner == Some(creator)
                &&& state.token_address == Some(token)
                &&& state.campaign_management == Some(manager)
                &&& !state.is_ended
                &&& state.verified.len() == 0
            }
            &&& lookup(made.0.registry.campaign_admins, made.1) == Some(creator)
            &&& made.0.management.campaigns == ledger.management.campaigns.push(made.1)
        }),
{
    let campaign = contract_id(creator, ledger.management.salt_counter);
    let through = PlatformView::through(auth, ledger.management_address);
    let manager = ledger.management_address;
    let stable = ledger.management.stable_coin.unwrap();
    let created = ledger.create_campaign(
        auth,
        name,
        description,
        no_of_recipients,
        token,
        amount,
        creator,
        location,
    ).unwrap().0;
    let asset = value_of(ledger.tokens, stable);
    lemma_token_is_wf(ledger, stable);
    lemma_transfer_keeps_wf(asset, through, creator, manager, amount);
    let escrowed = asset.transfer(through, creator, manager, amount).unwrap();
    let after_escrow = ledger.with_token(stable, escrowed);
    lemma_with_token_keeps_wf(ledger, stable, escrowed);
    let coin = value_of(after_escrow.tokens, token);
    assert(coin == value_of(ledger.tokens, token));
    lemma_token_is_wf(after_escrow, token);
    lemma_mint_keeps_wf(coin, through, campaign, amount);
    let minted = coin.mint(through, campaign, amount).unwrap();
    let after_mint = after_escrow.with_token(token, minted);
    lemma_with_token_keeps_wf(after_escrow, token, minted);
    let state = CampaignView::blank().set_campaign_info(
        CampaignInfo {
            name,
            description,
            no_of_recipients,
            token_address: token,
            token_name: coin.metadata.unwrap().name,
            creator,
            location,
        },
        manager,
    ).unwrap();
    lemma_put_new(ledger.campaigns, campaign, state);
    lemma_put(ledger.registry.campaign_admins, campaign, creator);
    assert(created.tokens == after_mint.tokens);
    assert(created.campaigns == put(ledger.campaigns, campaign, state));
    assert(after_escrow.token_at(stable) == Ok::<LocalCoinView, Error>(escrowed));
    assert(after_mint.token_at(token) == Ok::<LocalCoinView, Error>(minted));
    assert(after_mint.token_at(stable) == after_escrow.token_at(stable));
    assert(created.token_at(stable) == after_mint.token_at(stable));
    assert(created.token_at(token) == after_mint.token_at(token));
    assert(created.campaign_at(campaign) == Ok::<CampaignView, Error>(state));
}

} // verus!
