use crate::address::{Address, Auth};
use crate::collections::{
    contains_address, distinct_keys, has_key, lemma_map_values, lemma_map_values_put, lemma_put,
    lemma_put_twice, map_values, put, value_of, AddressMap,
};
use crate::deployment::MAX_SALT;
use crate::error::{settles, settles_with, Error};
use crate::localcoin::LocalCoin;
use crate::registry::Regisrty;
use vstd::prelude::*;

verus! {

/// The least amount of the stable asset that a campaign must escrow: 100
/// units at seven decimal places.
pub const MIN_CAMPAIGN_AMOUNT: i128 = 1_000_000_000;

/// What the campaign manager keeps of a campaign's metadata.
#[derive(Clone, Debug, PartialEq, Eq)]
pub struct CampaignSummary {
    pub name: String,
    pub description: String,
    pub no_of_recipients: u32,
}

/// One campaign in its creator's index.
#[derive(Clone, Debug, PartialEq, Eq)]
pub struct CampaignDetail {
    pub campaign: Address,
    pub token: Address,
    pub token_minted: i128,
    pub info: CampaignSummary,
}

impl CampaignDetail {
    /// A copy of the entry.
    pub fn duplicate(&self) -> (copy: CampaignDetail)
        ensures
            copy == *self,
    {
        CampaignDetail {
            campaign: self.campaign,
            token: self.token,
            token_minted: self.token_minted,
            info: CampaignSummary {
                name: self.info.name.clone(),
                description: self.info.description.clone(),
                no_of_recipients: self.info.no_of_recipients,
            },
        }
    }
}

/// What the campaign manager publishes when a campaign is created or tokens
/// are settled.
#[derive(Clone, Debug, PartialEq, Eq)]
pub enum ManagementEvent {
    CampaignCreated { creator: Address, detail: CampaignDetail },
    SettlementRequested { from: Address, amount: i128, token: Address },
}

/// The campaign factory and settlement coordinator: which campaigns it has
/// created, for whom and under which name, where the escrow is kept, and
/// what the manager has published.
pub struct CampaignManagement {
    registry: Option<Address>,
    stable_coin: Option<Address>,
    campaigns: Vec<Address>,
    salt_counter: u32,
    creator_campaigns: AddressMap<Vec<CampaignDetail>>,
    campaigns_name: AddressMap<String>,
    events: Vec<ManagementEvent>,
}

/// The state of the campaign manager as contracts speak of it.
#[verifier::ext_equal]
pub struct ManagementView {
    pub registry: Option<Address>,
    pub stable_coin: Option<Address>,
    /// The campaigns created so far, in the order of their creation.
    pub campaigns: Seq<Address>,
    /// The salt of the next deployment. It only ever grows.
    pub salt_counter: u32,
    /// The campaigns of every creator, in the order of their creation.
    pub creator_campaigns: Seq<(Address, Seq<CampaignDetail>)>,
    /// The display name of every campaign.
    pub campaigns_name: Seq<(Address, String)>,
    /// The events published so far, in their order.
    pub events: Seq<ManagementEvent>,
}

impl ManagementView {
    /// The campaign manager's invariant: a creator has one index and a
    /// campaign has one name.
    pub open spec fn wf(self) -> bool {
        &&& distinct_keys(self.creator_campaigns)
        &&& distinct_keys(self.campaigns_name)
    }

    /// The state of a campaign manager that nobody has touched yet.
    pub open spec fn blank() -> ManagementView {
        ManagementView {
            registry: None,
            stable_coin: None,
            campaigns: Seq::empty(),
            salt_counter: 0,
            creator_campaigns: Seq::empty(),
            campaigns_name: Seq::empty(),
            events: Seq::empty(),
        }
    }

    /// The campaigns of `creator`; none for a creator without campaigns.
    pub open spec fn campaigns_of(self, creator: Address) -> Seq<CampaignDetail> {
        if has_key(self.creator_campaigns, creator) {
            value_of(self.creator_campaigns, creator)
        } else {
            Seq::empty()
        }
    }

    /// What an entry point that only the super admin may call answers before
    /// it does anything else. `super_admin` is the registry's super admin.
    pub open spec fn super_admin_gate(self, auth: Auth, super_admin: Address) -> Result<(), Error> {
        if self.registry.is_none() {
            Err(Error::AddressNotSet)
        } else if !auth.covers(super_admin) {
            Err(Error::Unauthorized)
        } else {
            Ok(())
        }
    }

    /// `initialize`: binds the registry, once.
    pub open spec fn initialize(self, registry: Address) -> Result<ManagementView, Error> {
        if self.registry.is_some() {
            Err(Error::AlreadyInitialized)
        } else {
            Ok(ManagementView { registry: Some(registry), ..self })
        }
    }

    /// `set_registry`: the super admin points the manager at another
    /// registry.
    pub open spec fn set_registry(
        self,
        auth: Auth,
        super_admin: Address,
        address: Address,
    ) -> Result<ManagementView, Error> {
        match self.super_admin_gate(auth, super_admin) {
            Err(e) => Err(e),
            Ok(_) => Ok(ManagementView { registry: Some(address), ..self }),
        }
    }

    /// `set_stable_coin_address`: the super admin records the backing asset.
    pub open spec fn set_stable_coin_address(
        self,
        auth: Auth,
        super_admin: Address,
        address: Address,
    ) -> Result<ManagementView, Error> {
        match self.super_admin_gate(auth, super_admin) {
            Err(e) => Err(e),
            Ok(_) => Ok(ManagementView { stable_coin: Some(address), ..self }),
        }
    }

    /// Whether a campaign can be created, and if not, why not: on the
    /// creator's authority, for at least the minimum amount, for a token that
    /// the registry lists, with the backing asset recorded and a salt left
    /// for the deployment.
    pub open spec fn create_campaign_gate(
        self,
        auth: Auth,
        valid_tokens: Seq<Address>,
        token: Address,
        amount: i128,
        creator: Address,
    ) -> Result<(), Error> {
        if !auth.covers(creator) {
            Err(Error::Unauthorized)
        } else if amount < MIN_CAMPAIGN_AMOUNT {
            Err(Error::AmountBelowMinimum)
        } else if self.registry.is_none() {
            Err(Error::AddressNotSet)
        } else if !valid_tokens.contains(token) {
            Err(Error::InvalidToken)
        } else if self.stable_coin.is_none() {
            Err(Error::AddressNotSet)
        } else if self.salt_counter > MAX_SALT {
            Err(Error::SaltsExhausted)
        } else {
            Ok(())
        }
    }

    /// `create_campaign`: on the creator's authority, for at least the
    /// minimum amount and a token that the registry lists, the campaign
    /// deployed at `campaign` enters the list of campaigns, the name index
    /// and its creator's index, the salt counter moves on and the creation
    /// is published. The answer is the salt of the deployment.
    pub open spec fn create_campaign(
        self,
        auth: Auth,
        valid_tokens: Seq<Address>,
        campaign: Address,
        name: String,
        description: String,
        no_of_recipients: u32,
        token: Address,
        amount: i128,
        creator: Address,
    ) -> Result<(ManagementView, u32), Error> {
        match self.create_campaign_gate(auth, valid_tokens, token, amount, creator) {
            Err(e) => Err(e),
            Ok(_) => Ok(
                (
                    ManagementView {
                        campaigns: self.campaigns.push(campaign),
                        salt_counter: (self.salt_counter + 1) as u32,
                        creator_campaigns: put(
                            self.creator_campaigns,
                            creator,
                            self.campaigns_of(creator).push(
                                CampaignDetail {
                                    campaign,
                                    token,
                                    token_minted: amount,
                                    info: CampaignSummary { name, description, no_of_recipients },
                                },
                            ),
                        ),
                        campaigns_name: put(self.campaigns_name, campaign, name),
                        events: self.events.push(
                            ManagementEvent::CampaignCreated {
                                creator,
                                detail: CampaignDetail {
                                    campaign,
                                    token,
                                    token_minted: amount,
                                    info: CampaignSummary { name, description, no_of_recipients },
                                },
                            },
                        ),
                        ..self
                    },
                    self.salt_counter,
                ),
            ),
        }
    }

    /// `end_campaign`: what the creator gets back when it ends `campaign`.
    /// `owner` is the owner that the registry has for the campaign, `ended`
    /// the campaign's end status and `balance` what the campaign still holds
    /// of its token. The refund is that balance: a token and the stable asset
    /// count in the same unit.
    pub open spec fn end_campaign(
        self,
        auth: Auth,
        campaign: Address,
        creator: Address,
        owner: Option<Address>,
        ended: bool,
        balance: i128,
    ) -> Result<i128, Error> {
        if !auth.covers(creator) {
            Err(Error::Unauthorized)
        } else if !self.campaigns.contains(campaign) {
            Err(Error::CampaignNotFound)
        } else if owner != Some(creator) {
            Err(Error::NotCampaignOwner)
        } else if ended {
            Err(Error::CampaignAlreadyEnded)
        } else if self.stable_coin.is_none() {
            Err(Error::AddressNotSet)
        } else {
            Ok(balance)
        }
    }

    /// `request_campaign_settlement`: the merchant `from` has `amount` of
    /// `token` settled, and the request is published. `valid_tokens` and
    /// `verified_merchants` are what the registry reports, `merchant_balance`
    /// is what the merchant holds of the token and `escrow_balance` what the
    /// campaign manager holds of the stable asset.
    pub open spec fn request_campaign_settlement(
        self,
        auth: Auth,
        from: Address,
        amount: i128,
        token: Address,
        valid_tokens: Seq<Address>,
        verified_merchants: Seq<Address>,
        merchant_balance: i128,
        escrow_balance: i128,
    ) -> Result<ManagementView, Error> {
        if !auth.covers(from) {
            Err(Error::Unauthorized)
        } else if amount <= 0 {
            Err(Error::AmountNotPositive)
        } else if self.registry.is_none() {
            Err(Error::AddressNotSet)
        } else if !valid_tokens.contains(token) {
            Err(Error::InvalidToken)
        } else if !verified_merchants.contains(from) {
            Err(Error::CallerNotMerchant)
        } else if amount > merchant_balance {
            Err(Error::InsufficientTokenForSettlement)
        } else if self.stable_coin.is_none() {
            Err(Error::AddressNotSet)
        } else if amount > escrow_balance {
            Err(Error::InsufficientStableCoin)
        } else {
            Ok(
                ManagementView {
                    events: self.events.push(
                        ManagementEvent::SettlementRequested { from, amount, token },
                    ),
                    ..self
                },
            )
        }
    }
}

/// A second `initialize` is refused as "already initialized" and leaves the
/// campaign manager as the first one left it.
pub proof fn lemma_second_initialize_is_refused(
    manager: ManagementView,
    first: Address,
    second: Address,
    outcome: Result<(), Error>,
    after: ManagementView,
)
    requires
        manager.initialize(first) matches Ok(once) && settles(
            once.initialize(second),
            once,
            outcome,
            after,
        ),
    ensures
        outcome == Err::<(), Error>(Error::AlreadyInitialized),
        after == manager.initialize(first).unwrap(),
{
}

/// The salt counter only ever grows, and a creation moves it on by one: no
/// salt is used twice. The list of campaigns only ever grows at its end.
pub proof fn lemma_salts_are_used_once(
    manager: ManagementView,
    auth: Auth,
    super_admin: Address,
    valid_tokens: Seq<Address>,
    campaign: Address,
    name: String,
    description: String,
    no_of_recipients: u32,
    token: Address,
    amount: i128,
    creator: Address,
    address: Address,
)
    ensures
        manager.create_campaign(
            auth,
            valid_tokens,
            campaign,
            name,
            description,
            no_of_recipients,
            token,
            amount,
            creator,
        ) matches Ok(made) ==> made.1 == manager.salt_counter && made.0.salt_counter
            == manager.salt_counter + 1 && made.0.campaigns == manager.campaigns.push(campaign),
        manager.set_registry(auth, super_admin, address) matches Ok(next) ==> next.salt_counter
            == manager.salt_counter && next.campaigns == manager.campaigns,
        manager.set_stable_coin_address(auth, super_admin, address) matches Ok(next)
            ==> next.salt_counter == manager.salt_counter && next.campaigns == manager.campaigns,
        manager.initialize(address) matches Ok(next) ==> next.salt_counter == manager.salt_counter
            && next.campaigns == manager.campaigns,
{
}

/// A campaign needs at least the minimum amount: below it the creation is
/// refused, and the minimum itself is enough.
pub proof fn lemma_minimum_amount_is_enough(
    manager: ManagementView,
    auth: Auth,
    valid_tokens: Seq<Address>,
    campaign: Address,
    name: String,
    description: String,
    no_of_recipients: u32,
    token: Address,
    amount: i128,
    creator: Address,
)
    ensures
        amount < MIN_CAMPAIGN_AMOUNT ==> manager.create_campaign(
            auth,
            valid_tokens,
            campaign,
            name,
            description,
            no_of_recipients,
            token,
            amount,
            creator,
        ).is_err(),
        amount >= MIN_CAMPAIGN_AMOUNT && auth.covers(creator) && manager.registry.is_some()
            && valid_tokens.contains(token) && manager.stable_coin.is_some() && manager.salt_counter
            <= MAX_SALT ==> manager.create_campaign(
            auth,
            valid_tokens,
            campaign,
            name,
            description,
            no_of_recipients,
            token,
            amount,
            creator,
        ).is_ok(),
{
}

/// A merchant that is registered but not verified gets no settlement: with
/// an authorized request for a positive amount of a listed token, the answer
/// is that the caller is no merchant.
pub proof fn lemma_unverified_merchant_gets_no_settlement(
    manager: ManagementView,
    auth: Auth,
    from: Address,
    amount: i128,
    token: Address,
    valid_tokens: Seq<Address>,
    verified_merchants: Seq<Address>,
    merchant_balance: i128,
    escrow_balance: i128,
)
    requires
        !verified_merchants.contains(from),
    ensures
        manager.request_campaign_settlement(
            auth,
            from,
            amount,
            token,
            valid_tokens,
            verified_merchants,
            merchant_balance,
            escrow_balance,
        ).is_err(),
        auth.covers(from) && amount > 0 && manager.registry.is_some() && valid_tokens.contains(token)
            ==> manager.request_campaign_settlement(
            auth,
            from,
            amount,
            token,
            valid_tokens,
            verified_merchants,
            merchant_balance,
            escrow_balance,
        ) == Err::<ManagementView, Error>(Error::CallerNotMerchant),
{
}

impl View for CampaignManagement {
    type V = ManagementView;

    closed spec fn view(&self) -> ManagementView {
        ManagementView {
            registry: self.registry,
            stable_coin: self.stable_coin,
            campaigns: self.campaigns@,
            salt_counter: self.salt_counter,
            creator_campaigns: map_values(
                self.creator_campaigns@,
                |list: Vec<CampaignDetail>| list@,
            ),
            campaigns_name: self.campaigns_name@,
            events: self.events@,
        }
    }
}

impl CampaignManagement {
    /// A campaign manager that nobody has touched yet.
    pub fn new() -> (manager: CampaignManagement)
        ensures
            manager@ == ManagementView::blank(),
            manager@.wf(),
    {
        let manager = CampaignManagement {
            registry: None,
            stable_coin: None,
            campaigns: Vec::new(),
            salt_counter: 0,
            creator_campaigns: AddressMap::new(),
            campaigns_name: AddressMap::new(),
            events: Vec::new(),
        };
        assert(manager@ =~= ManagementView::blank());
        manager
    }

    /// The campaign manager in the state that the parts describe and with
    /// nothing published yet.
    pub fn restore(
        registry: Option<Address>,
        stable_coin: Option<Address>,
        campaigns: Vec<Address>,
        salt_counter: u32,
        creator_campaigns: AddressMap<Vec<CampaignDetail>>,
        campaigns_name: AddressMap<String>,
    ) -> (manager: CampaignManagement)
        requires
            creator_campaigns.wf(),
            campaigns_name.wf(),
        ensures
            manager@ == (ManagementView {
                registry,
                stable_coin,
                campaigns: campaigns@,
                salt_counter,
                creator_campaigns: map_values(
                    creator_campaigns@,
                    |list: Vec<CampaignDetail>| list@,
                ),
                campaigns_name: campaigns_name@,
                events: Seq::empty(),
            }),
            manager@.wf(),
    {
        proof {
            lemma_map_values(creator_campaigns@, |list: Vec<CampaignDetail>| list@);
        }
        let manager = CampaignManagement {
            registry,
            stable_coin,
            campaigns,
            salt_counter,
            creator_campaigns,
            campaigns_name,
            events: Vec::new(),
        };
        assert(manager@ =~= (ManagementView {
            registry,
            stable_coin,
            campaigns: campaigns@,
            salt_counter,
            creator_campaigns: map_values(creator_campaigns@, |list: Vec<CampaignDetail>| list@),
            campaigns_name: campaigns_name@,
            events: Seq::empty(),
        }));
        manager
    }

    /// The events published so far, in their order.
    pub fn events(&self) -> (events: &Vec<ManagementEvent>)
        ensures
            events@ == self@.events,
    {
        &self.events
    }

    /// The campaigns of every creator.
    pub fn creator_campaigns(&self) -> (index: &AddressMap<Vec<CampaignDetail>>)
        ensures
            map_values(index@, |list: Vec<CampaignDetail>| list@) == self@.creator_campaigns,
            self@.wf() ==> index.wf(),
    {
        proof {
            lemma_map_values(self.creator_campaigns@, |list: Vec<CampaignDetail>| list@);
        }
        &self.creator_campaigns
    }

    /// Decides whether `auth` carries the authorization of `super_admin`.
    fn require_super_admin(&self, auth: &Auth, super_admin: Address) -> (outcome: Result<(), Error>)
        ensures
            outcome == self@.super_admin_gate(*auth, super_admin),
    {
        if self.registry.is_none() {
            Err(Error::AddressNotSet)
        } else if !auth.authorizes(super_admin) {
            Err(Error::Unauthorized)
        } else {
            Ok(())
        }
    }

    /// Binds the registry of a fresh campaign manager.
    pub fn initialize(&mut self, registry: Address) -> (outcome: Result<(), Error>)
        requires
            old(self)@.wf(),
        ensures
            final(self)@.wf(),
            settles(old(self)@.initialize(registry), old(self)@, outcome, final(self)@),
    {
        if self.has_registry() {
            return Err(Error::AlreadyInitialized);
        }
        self.registry = Some(registry);
        assert(self@ =~= old(self)@.initialize(registry).unwrap());
        Ok(())
    }

    /// Decides whether the code of this contract may be replaced: only on the
    /// super admin's authority. `super_admin` is the super admin as the
    /// registry reports it.
    pub fn upgrade(&self, auth: &Auth, super_admin: Address) -> (outcome: Result<(), Error>)
        ensures
            outcome == self@.super_admin_gate(*auth, super_admin),
    {
        self.require_super_admin(auth, super_admin)
    }

    /// Decides whether the code of a token may be replaced: only on the super
    /// admin's authority. `super_admin` is the super admin as the registry
    /// reports it.
    pub fn upgrade_localcoin(&self, auth: &Auth, super_admin: Address) -> (outcome: Result<
        (),
        Error,
    >)
        ensures
            outcome == self@.super_admin_gate(*auth, super_admin),
    {
        self.require_super_admin(auth, super_admin)
    }

    /// Points the manager at another registry. `super_admin` is the super
    /// admin as the current registry reports it.
    pub fn set_registry(&mut self, auth: &Auth, super_admin: Address, address: Address) -> (outcome:
        Result<(), Error>)
        requires
            old(self)@.wf(),
        ensures
            final(self)@.wf(),
            settles(
                old(self)@.set_registry(*auth, super_admin, address),
                old(self)@,
                outcome,
                final(self)@,
            ),
    {
        self.require_super_admin(auth, super_admin)?;
        self.registry = Some(address);
        assert(self@ =~= old(self)@.set_registry(*auth, super_admin, address).unwrap());
        Ok(())
    }

    /// Records the contract of the backing asset.
    pub fn set_stable_coin_address(
        &mut self,
        auth: &Auth,
        super_admin: Address,
        address: Address,
    ) -> (outcome: Result<(), Error>)
        requires
            old(self)@.wf(),
        ensures
            final(self)@.wf(),
            settles(
                old(self)@.set_stable_coin_address(*auth, super_admin, address),
                old(self)@,
                outcome,
                final(self)@,
            ),
    {
        self.require_super_admin(auth, super_admin)?;
        self.stable_coin = Some(address);
        assert(self@ =~= old(self)@.set_stable_coin_address(*auth, super_admin, address).unwrap());
        Ok(())
    }

    /// Whether a campaign can be created, and if not, why not.
    pub fn can_create_campaign(
        &self,
        auth: &Auth,
        valid_tokens: &Vec<Address>,
        token_address: Address,
        amount: i128,
        creator: Address,
    ) -> (outcome: Result<(), Error>)
        ensures
            outcome == self@.create_campaign_gate(
                *auth,
                valid_tokens@,
                token_address,
                amount,
                creator,
            ),
    {
        if !auth.authorizes(creator) {
            return Err(Error::Unauthorized);
        }
        if amount < MIN_CAMPAIGN_AMOUNT {
            return Err(Error::AmountBelowMinimum);
        }
        if self.registry.is_none() {
            return Err(Error::AddressNotSet);
        }
        if !contains_address(valid_tokens, token_address) {
            return Err(Error::InvalidToken);
        }
        if self.stable_coin.is_none() {
            return Err(Error::AddressNotSet);
        }
        if self.salt_counter > MAX_SALT {
            return Err(Error::SaltsExhausted);
        }
        Ok(())
    }

    /// Records a new campaign. `valid_tokens` is the registry's list of
    /// deployed tokens and `campaign` the address at which the campaign is
    /// deployed. The answer is the salt of that deployment.
    pub fn create_campaign(
        &mut self,
        auth: &Auth,
        valid_tokens: &Vec<Address>,
        campaign: Address,
        name: String,
        description: String,
        no_of_recipients: u32,
        token_address: Address,
        amount: i128,
        creator: Address,
    ) -> (outcome: Result<u32, Error>)
        requires
            old(self)@.wf(),
        ensures
            final(self)@.wf(),
            settles_with(
                old(self)@.create_campaign(
                    *auth,
                    valid_tokens@,
                    campaign,
                    name,
                    description,
                    no_of_recipients,
                    token_address,
                    amount,
                    creator,
                ),
                old(self)@,
                outcome,
                final(self)@,
            ),
    {
        self.can_create_campaign(auth, valid_tokens, token_address, amount, creator)?;
        let ghost next = old(self)@.create_campaign(
            *auth,
            valid_tokens@,
            campaign,
            name,
            description,
            no_of_recipients,
            token_address,
            amount,
            creator,
        ).unwrap().0;
        let ghost index = self.creator_campaigns@;
        let ghost lists = |list: Vec<CampaignDetail>| list@;
        let salt = self.salt_counter;
        let label = name.clone();
        let detail = CampaignDetail {
            campaign,
            token: token_address,
            token_minted: amount,
            info: CampaignSummary { name, description, no_of_recipients },
        };
        proof {
            lemma_map_values(index, lists);
            lemma_put(self@.campaigns_name, campaign, label);
        }
        let placeholder: Vec<CampaignDetail> = Vec::new();
        let ghost blank = placeholder;
        let mut list = match self.creator_campaigns.insert(creator, placeholder) {
            Some(list) => list,
            None => Vec::new(),
        };
        assert(list@ == old(self)@.campaigns_of(creator));
        self.events.push(ManagementEvent::CampaignCreated { creator, detail: detail.duplicate() });
        list.push(detail);
        self.creator_campaigns.insert(creator, list);
        proof {
            lemma_put_twice(index, creator, blank, list);
            lemma_map_values_put(index, lists, creator, list);
            lemma_put(map_values(index, lists), creator, list@);
        }
        self.campaigns.push(campaign);
        self.campaigns_name.insert(campaign, label);
        self.salt_counter = salt + 1;
        assert(self@ =~= next);
        Ok(salt)
    }

    /// Decides what the creator gets back when it ends `campaign`. `owner`
    /// is the owner that the registry has for the campaign, if any, `ended`
    /// the campaign's end status and `balance` what the campaign still holds
    /// of its token. Ending the campaign, destroying its tokens and paying
    /// the refund out of the escrow are the caller's part.
    pub fn end_campaign(
        &self,
        auth: &Auth,
        campaign: Address,
        creator: Address,
        owner: Option<Address>,
        ended: bool,
        balance: i128,
    ) -> (refund: Result<i128, Error>)
        ensures
            refund == self@.end_campaign(*auth, campaign, creator, owner, ended, balance),
    {
        if !auth.authorizes(creator) {
            return Err(Error::Unauthorized);
        }
        if !contains_address(&self.campaigns, campaign) {
            return Err(Error::CampaignNotFound);
        }
        let owned = match owner {
            Some(owner) => owner == creator,
            None => false,
        };
        if !owned {
            return Err(Error::NotCampaignOwner);
        }
        if ended {
            return Err(Error::CampaignAlreadyEnded);
        }
        if self.stable_coin.is_none() {
            return Err(Error::AddressNotSet);
        }
        Ok(balance)
    }

    /// Decides whether the merchant `from` may have `amount` of the token
    /// settled, and publishes the request if so. `valid_tokens` and
    /// `verified_merchants` are what the registry reports, `merchant_balance`
    /// is what the merchant holds of the token and `escrow_balance` what the
    /// campaign manager holds of the stable asset. Destroying the tokens and
    /// paying the super admin out of the escrow are the caller's part.
    pub fn request_campaign_settlement(
        &mut self,
        auth: &Auth,
        from: Address,
        amount: i128,
        token_address: Address,
        valid_tokens: &Vec<Address>,
        verified_merchants: &Vec<Address>,
        merchant_balance: i128,
        escrow_balance: i128,
    ) -> (outcome: Result<(), Error>)
        requires
            old(self)@.wf(),
        ensures
            final(self)@.wf(),
            settles(
                old(self)@.request_campaign_settlement(
                    *auth,
                    from,
                    amount,
                    token_address,
                    valid_tokens@,
                    verified_merchants@,
                    merchant_balance,
                    escrow_balance,
                ),
                old(self)@,
                outcome,
                final(self)@,
            ),
    {
        if !auth.authorizes(from) {
            return Err(Error::Unauthorized);
        }
        if amount <= 0 {
            return Err(Error::AmountNotPositive);
        }
        if self.registry.is_none() {
            return Err(Error::AddressNotSet);
        }
        if !contains_address(valid_tokens, token_address) {
            return Err(Error::InvalidToken);
        }
        if !contains_address(verified_merchants, from) {
            return Err(Error::CallerNotMerchant);
        }
        if amount > merchant_balance {
            return Err(Error::InsufficientTokenForSettlement);
        }
        if self.stable_coin.is_none() {
            return Err(Error::AddressNotSet);
        }
        if amount > escrow_balance {
            return Err(Error::InsufficientStableCoin);
        }
        self.events.push(
            ManagementEvent::SettlementRequested { from, amount, token: token_address },
        );
        assert(self@ =~= old(self)@.request_campaign_settlement(
            *auth,
            from,
            amount,
            token_address,
            valid_tokens@,
            verified_merchants@,
            merchant_balance,
            escrow_balance,
        ).unwrap());
        Ok(())
    }

    /// The campaigns created so far.
    pub fn get_campaigns(&self) -> (list: &Vec<Address>)
        ensures
            list@ == self@.campaigns,
    {
        &self.campaigns
    }

    /// The display name of every campaign.
    pub fn get_campaigns_name(&self) -> (names: &AddressMap<String>)
        ensures
            names@ == self@.campaigns_name,
    {
        &self.campaigns_name
    }

    /// The campaigns of `creator`; none for a creator without campaigns.
    pub fn get_creator_campaigns(&self, creator: Address) -> (found: Option<&Vec<CampaignDetail>>)
        requires
            self@.wf(),
        ensures
            found.is_some() == has_key(self@.creator_campaigns, creator),
            found matches Some(list) ==> list@ == self@.campaigns_of(creator),
    {
        proof {
            lemma_map_values(self.creator_campaigns@, |list: Vec<CampaignDetail>| list@);
        }
        self.creator_campaigns.get(creator)
    }

    /// The registry.
    pub fn get_registry(&self) -> (found: Result<Address, Error>)
        ensures
            found == match self@.registry {
                Some(address) => Ok::<Address, Error>(address),
                None => Err::<Address, Error>(Error::AddressNotSet),
            },
    {
        match self.registry {
            Some(address) => Ok(address),
            None => Err(Error::AddressNotSet),
        }
    }

    /// The contract of the backing asset.
    pub fn get_stable_coin(&self) -> (found: Result<Address, Error>)
        ensures
            found == match self@.stable_coin {
                Some(address) => Ok::<Address, Error>(address),
                None => Err::<Address, Error>(Error::AddressNotSet),
            },
    {
        match self.stable_coin {
            Some(address) => Ok(address),
            None => Err(Error::AddressNotSet),
        }
    }

    /// What `user` holds of the stable asset, read from the ledger
    /// `stable_coin` of the asset.
    pub fn get_balance_of_stable_coin(&self, user: Address, stable_coin: &LocalCoin) -> (found:
        Result<i128, Error>)
        requires
            stable_coin@.wf(),
        ensures
            found == if self@.stable_coin.is_some() {
                Ok::<i128, Error>(stable_coin@.held(user))
            } else {
                Err::<i128, Error>(Error::AddressNotSet)
            },
    {
        if self.stable_coin.is_none() {
            return Err(Error::AddressNotSet);
        }
        Ok(stable_coin.balance_of(user))
    }

    /// The super admin, read from the registry `registry`.
    pub fn get_super_admin(&self, registry: &Regisrty) -> (found: Result<Address, Error>)
        ensures
            found == if self@.registry.is_none() {
                Err::<Address, Error>(Error::AddressNotSet)
            } else {
                match registry@.super_admin {
                    Some(admin) => Ok::<Address, Error>(admin),
                    None => Err::<Address, Error>(Error::SuperAdminNotSet),
                }
            },
    {
        if self.registry.is_none() {
            return Err(Error::AddressNotSet);
        }
        registry.get_super_admin()
    }

    /// The salt of the next deployment.
    pub fn salt_counter(&self) -> (salt: u32)
        ensures
            salt == self@.salt_counter,
    {
        self.salt_counter
    }

    /// Whether the campaign manager has been initialized.
    pub fn has_registry(&self) -> (set: bool)
        ensures
            set == self@.registry.is_some(),
    {
        self.registry.is_some()
    }
}

} // verus!
