use crate::address::{Address, Auth};
use crate::collections::{
    all_in, all_listed, concat_addresses, concat_names, copy_addresses, distinct_keys, has_key,
    lemma_map_values, lemma_map_values_put, lemma_put, lemma_put_new, map_values, no_name_listed,
    no_text_in,
    none_in, none_listed, put, texts, value_of, AddressMap, NameMap,
};
use crate::deployment::MAX_SALT;
use crate::error::{settles, settles_with, Error};
use vstd::prelude::*;

verus! {

/// Where a token may be spent: the item categories and the merchants that
/// are bound to it.
#[derive(Clone, Debug, PartialEq, Eq)]
pub struct TokenScope {
    pub items: Vec<String>,
    pub merchants: Vec<Address>,
}

/// `TokenScope` with its lists taken as sequences, the items as texts.
#[verifier::ext_equal]
pub struct TokenScopeView {
    pub items: Seq<Seq<char>>,
    pub merchants: Seq<Address>,
}

impl View for TokenScope {
    type V = TokenScopeView;

    open spec fn view(&self) -> TokenScopeView {
        TokenScopeView { items: texts(self.items@), merchants: self.merchants@ }
    }
}

/// What the deployment of a newly issued token needs from the issuance
/// manager: the salt to derive the token's address from, and the
/// administrator to initialize the token with.
#[derive(Clone, Copy, Debug, PartialEq, Eq, Structural)]
pub struct TokenDeployment {
    pub salt: u32,
    pub admin: Address,
}

/// What one token reports of a user: its own address and display name, and
/// what the user holds of it.
#[derive(Clone, Debug, PartialEq, Eq)]
pub struct TokenReport {
    pub token: Address,
    pub name: String,
    pub balance: i128,
}

/// What the issuance manager publishes when a token is issued or its scope
/// grows.
#[derive(Clone, Debug, PartialEq, Eq)]
pub enum IssuanceEvent {
    NewTokenIssued {
        token: Address,
        name: String,
        symbol: String,
        decimal: u32,
        items: Vec<String>,
        merchants: Vec<Address>,
    },
    TokenItemsUpdated { token: Address, items: Vec<String> },
    TokenMerchantsUpdated { token: Address, merchants: Vec<Address> },
}

/// `IssuanceEvent` with its lists taken as sequences, the items as texts.
#[verifier::ext_equal]
pub enum IssuanceEventView {
    NewTokenIssued {
        token: Address,
        name: String,
        symbol: String,
        decimal: u32,
        items: Seq<Seq<char>>,
        merchants: Seq<Address>,
    },
    TokenItemsUpdated { token: Address, items: Seq<Seq<char>> },
    TokenMerchantsUpdated { token: Address, merchants: Seq<Address> },
}

impl View for IssuanceEvent {
    type V = IssuanceEventView;

    open spec fn view(&self) -> IssuanceEventView {
        match *self {
            IssuanceEvent::NewTokenIssued { token, name, symbol, decimal, items, merchants } => {
                IssuanceEventView::NewTokenIssued {
                    token,
                    name,
                    symbol,
                    decimal,
                    items: texts(items@),
                    merchants: merchants@,
                }
            },
            IssuanceEvent::TokenItemsUpdated { token, items } => {
                IssuanceEventView::TokenItemsUpdated { token, items: texts(items@) }
            },
            IssuanceEvent::TokenMerchantsUpdated { token, merchants } => {
                IssuanceEventView::TokenMerchantsUpdated { token, merchants: merchants@ }
            },
        }
    }
}

/// The views of `events`, in their order.
pub open spec fn published(events: Seq<IssuanceEvent>) -> Seq<IssuanceEventView> {
    Seq::new(events.len(), |i: int| events[i]@)
}

/// The token-issuance authority: which tokens exist under which symbol,
/// where each may be spent, and what the manager has published.
pub struct IssuanceManagement {
    registry: Option<Address>,
    campaign_management: Option<Address>,
    salt_counter: u32,
    tokens: AddressMap<TokenScope>,
    symbols: NameMap<Address>,
    events: Vec<IssuanceEvent>,
}

/// The state of the issuance manager as contracts speak of it.
#[verifier::ext_equal]
pub struct IssuanceView {
    pub registry: Option<Address>,
    pub campaign_management: Option<Address>,
    /// The salt of the next deployment. It only ever grows.
    pub salt_counter: u32,
    /// The scope of every issued token.
    pub tokens: Seq<(Address, TokenScopeView)>,
    /// The token issued under every symbol in use.
    pub symbols: Seq<(Seq<char>, Address)>,
    /// The events published so far, in their order.
    pub events: Seq<IssuanceEventView>,
}

/// The positive holdings among `reports`, keyed by token name. Where two
/// tokens report the same name, the later report stands.
pub open spec fn holdings(reports: Seq<TokenReport>) -> Seq<(Seq<char>, (i128, Address))>
    decreases reports.len(),
{
    if reports.len() == 0 {
        Seq::empty()
    } else {
        let earlier = holdings(reports.drop_last());
        let last = reports.last();
        if last.balance > 0 {
            put(earlier, last.name@, (last.balance, last.token))
        } else {
            earlier
        }
    }
}

impl IssuanceView {
    /// The issuance manager's invariant: a token has one scope and a symbol
    /// names one token.
    pub open spec fn wf(self) -> bool {
        &&& distinct_keys(self.tokens)
        &&& distinct_keys(self.symbols)
    }

    /// The state of an issuance manager that nobody has touched yet.
    pub open spec fn blank() -> IssuanceView {
        IssuanceView {
            registry: None,
            campaign_management: None,
            salt_counter: 0,
            tokens: Seq::empty(),
            symbols: Seq::empty(),
            events: Seq::empty(),
        }
    }

    /// The merchants bound to `token`; none for an unknown token.
    pub open spec fn merchants_of(self, token: Address) -> Seq<Address> {
        if has_key(self.tokens, token) {
            value_of(self.tokens, token).merchants
        } else {
            Seq::empty()
        }
    }

    /// The items bound to `token`; none for an unknown token.
    pub open spec fn items_of(self, token: Address) -> Seq<Seq<char>> {
        if has_key(self.tokens, token) {
            value_of(self.tokens, token).items
        } else {
            Seq::empty()
        }
    }

    /// What an entry point that only the super admin may call answers before
    /// it does anything else. `super_admin` is the registry's super admin.
    pub open spec fn super_admin_gate(self, auth: Auth, super_admin: Address) -> Result<(), Error> {
        if self.registry.is_none() {
            Err(Error::AddressNotSet)
        } else if !auth.covers(super_admin) {
            Err(Error::Unauthorized)
        } else {
            Ok(())
        }
    }

    /// `initialize`: binds the registry, once.
    pub open spec fn initialize(self, registry: Address) -> Result<IssuanceView, Error> {
        if self.registry.is_some() {
            Err(Error::AlreadyInitialized)
        } else {
            Ok(IssuanceView { registry: Some(registry), ..self })
        }
    }

    /// `set_registry`: the super admin points the manager at another
    /// registry.
    pub open spec fn set_registry(
        self,
        auth: Auth,
        super_admin: Address,
        address: Address,
    ) -> Result<IssuanceView, Error> {
        match self.super_admin_gate(auth, super_admin) {
            Err(e) => Err(e),
            Ok(_) => Ok(IssuanceView { registry: Some(address), ..self }),
        }
    }

    /// `set_campaign_management`: the super admin records the campaign
    /// manager.
    pub open spec fn set_campaign_management(
        self,
        auth: Auth,
        super_admin: Address,
        address: Address,
    ) -> Result<IssuanceView, Error> {
        match self.super_admin_gate(auth, super_admin) {
            Err(e) => Err(e),
            Ok(_) => Ok(IssuanceView { campaign_management: Some(address), ..self }),
        }
    }

    /// Whether a token can be issued, and if not, why not: on the super
    /// admin's authority, under an unused symbol, with the campaign manager
    /// recorded, for verified merchants only and with a salt left.
    pub open spec fn issue_new_token_gate(
        self,
        auth: Auth,
        super_admin: Address,
        verified_merchants: Seq<Address>,
        symbol: Seq<char>,
        merchants: Seq<Address>,
    ) -> Result<(), Error> {
        match self.super_admin_gate(auth, super_admin) {
            Err(e) => Err(e),
            Ok(_) => if has_key(self.symbols, symbol) {
                Err(Error::TokenSymbolExists)
            } else if self.campaign_management.is_none() {
                Err(Error::AddressNotSet)
            } else if !all_in(merchants, verified_merchants) {
                Err(Error::UnverifiedMerchant)
            } else if self.salt_counter > MAX_SALT {
                Err(Error::SaltsExhausted)
            } else {
                Ok(())
            },
        }
    }

    /// `issue_new_token`: the super admin issues a token under an unused
    /// symbol, for verified merchants only. The token deployed at `token` is
    /// recorded with its scope and its symbol, the salt counter moves on and
    /// the issuance is published.
    pub open spec fn issue_new_token(
        self,
        auth: Auth,
        super_admin: Address,
        verified_merchants: Seq<Address>,
        token: Address,
        decimal: u32,
        name: String,
        symbol: String,
        items: Seq<Seq<char>>,
        merchants: Seq<Address>,
    ) -> Result<(IssuanceView, TokenDeployment), Error> {
        match self.issue_new_token_gate(auth, super_admin, verified_merchants, symbol@, merchants) {
            Err(e) => Err(e),
            Ok(_) => Ok(
                (
                    IssuanceView {
                        salt_counter: (self.salt_counter + 1) as u32,
                        tokens: put(self.tokens, token, TokenScopeView { items, merchants }),
                        symbols: put(self.symbols, symbol@, token),
                        events: self.events.push(
                            IssuanceEventView::NewTokenIssued {
                                token,
                                name,
                                symbol,
                                decimal,
                                items,
                                merchants,
                            },
                        ),
                        ..self
                    },
                    TokenDeployment {
                        salt: self.salt_counter,
                        admin: self.campaign_management.unwrap(),
                    },
                ),
            ),
        }
    }

    /// `add_token_items`: the super admin binds more items to a token, none
    /// of which is bound to it already, and the manager publishes the
    /// addition.
    pub open spec fn add_token_items(
        self,
        auth: Auth,
        super_admin: Address,
        token: Address,
        items: Seq<Seq<char>>,
    ) -> Result<IssuanceView, Error> {
        match self.super_admin_gate(auth, super_admin) {
            Err(e) => Err(e),
            Ok(_) => if !has_key(self.tokens, token) {
                Err(Error::TokenDoesNotExist)
            } else if !no_text_in(items, self.items_of(token)) {
                Err(Error::ItemAlreadyExists)
            } else {
                Ok(
                    IssuanceView {
                        tokens: put(
                            self.tokens,
                            token,
                            TokenScopeView {
                                items: self.items_of(token) + items,
                                merchants: self.merchants_of(token),
                            },
                        ),
                        events: self.events.push(
                            IssuanceEventView::TokenItemsUpdated { token, items },
                        ),
                        ..self
                    },
                )
            },
        }
    }

    /// `add_token_merchants`: the super admin binds more merchants to a
    /// token, all of them verified and none of them bound to it already, and
    /// the manager publishes the addition.
    pub open spec fn add_token_merchants(
        self,
        auth: Auth,
        super_admin: Address,
        verified_merchants: Seq<Address>,
        token: Address,
        merchants: Seq<Address>,
    ) -> Result<IssuanceView, Error> {
        match self.super_admin_gate(auth, super_admin) {
            Err(e) => Err(e),
            Ok(_) => if !has_key(self.tokens, token) {
                Err(Error::TokenDoesNotExist)
            } else if !all_in(merchants, verified_merchants) {
                Err(Error::UnverifiedMerchant)
            } else if !none_in(merchants, self.merchants_of(token)) {
                Err(Error::MerchantAlreadyExists)
            } else {
                Ok(
                    IssuanceView {
                        tokens: put(
                            self.tokens,
                            token,
                            TokenScopeView {
                                items: self.items_of(token),
                                merchants: self.merchants_of(token) + merchants,
                            },
                        ),
                        events: self.events.push(
                            IssuanceEventView::TokenMerchantsUpdated { token, merchants },
                        ),
                        ..self
                    },
                )
            },
        }
    }
}

/// A second `initialize` is refused as "already initialized" and leaves the
/// issuance manager as the first one left it.
pub proof fn lemma_second_initialize_is_refused(
    manager: IssuanceView,
    first: Address,
    second: Address,
    outcome: Result<(), Error>,
    after: IssuanceView,
)
    requires
        manager.initialize(first) matches Ok(once) && settles(
            once.initialize(second),
            once,
            outcome,
            after,
        ),
    ensures
        outcome == Err::<(), Error>(Error::AlreadyInitialized),
        after == manager.initialize(first).unwrap(),
{
}

/// The salt counter only ever grows, and an issuance moves it on by one: no
/// salt is used twice.
pub proof fn lemma_salts_are_used_once(
    manager: IssuanceView,
    auth: Auth,
    super_admin: Address,
    verified_merchants: Seq<Address>,
    token: Address,
    decimal: u32,
    name: String,
    symbol: String,
    items: Seq<Seq<char>>,
    merchants: Seq<Address>,
    address: Address,
)
    ensures
        manager.issue_new_token(
            auth,
            super_admin,
            verified_merchants,
            token,
            decimal,
            name,
            symbol,
            items,
            merchants,
        ) matches Ok(issued) ==> issued.1.salt == manager.salt_counter && issued.0.salt_counter
            == manager.salt_counter + 1,
        manager.add_token_items(auth, super_admin, token, items) matches Ok(next)
            ==> next.salt_counter == manager.salt_counter,
        manager.add_token_merchants(auth, super_admin, verified_merchants, token, merchants) matches Ok(
            next,
        ) ==> next.salt_counter == manager.salt_counter,
        manager.set_registry(auth, super_admin, address) matches Ok(next) ==> next.salt_counter
            == manager.salt_counter,
        manager.set_campaign_management(auth, super_admin, address) matches Ok(next)
            ==> next.salt_counter == manager.salt_counter,
        manager.initialize(address) matches Ok(next) ==> next.salt_counter == manager.salt_counter,
{
}

/// No two tokens share a symbol: a symbol that is in use is refused, and an
/// issuance leaves every other symbol with its token.
pub proof fn lemma_symbols_are_unique(
    manager: IssuanceView,
    auth: Auth,
    super_admin: Address,
    verified_merchants: Seq<Address>,
    token: Address,
    decimal: u32,
    name: String,
    symbol: String,
    items: Seq<Seq<char>>,
    merchants: Seq<Address>,
)
    requires
        manager.wf(),
    ensures
        has_key(manager.symbols, symbol@) ==> manager.issue_new_token(
            auth,
            super_admin,
            verified_merchants,
            token,
            decimal,
            name,
            symbol,
            items,
            merchants,
        ).is_err(),
        manager.issue_new_token(
            auth,
            super_admin,
            verified_merchants,
            token,
            decimal,
            name,
            symbol,
            items,
            merchants,
        ) matches Ok(issued) ==> {
            &&& issued.0.wf()
            &&& has_key(issued.0.symbols, symbol@)
            &&& value_of(issued.0.symbols, symbol@) == token
            &&& forall|other: Seq<char>|
                other != symbol@ && has_key(manager.symbols, other) ==> #[trigger] has_key(
                    issued.0.symbols,
                    other,
                ) && value_of(issued.0.symbols, other) == value_of(manager.symbols, other)
        },
{
    if manager.issue_new_token(
        auth,
        super_admin,
        verified_merchants,
        token,
        decimal,
        name,
        symbol,
        items,
        merchants,
    ).is_ok() {
        lemma_put_new(manager.symbols, symbol@, token);
        lemma_put(manager.tokens, token, TokenScopeView { items, merchants });
    }
}

impl View for IssuanceManagement {
    type V = IssuanceView;

    closed spec fn view(&self) -> IssuanceView {
        IssuanceView {
            registry: self.registry,
            campaign_management: self.campaign_management,
            salt_counter: self.salt_counter,
            tokens: map_values(self.tokens@, |scope: TokenScope| scope@),
            symbols: self.symbols@,
            events: published(self.events@),
        }
    }
}

impl IssuanceManagement {
    /// An issuance manager that nobody has touched yet.
    pub fn new() -> (manager: IssuanceManagement)
        ensures
            manager@ == IssuanceView::blank(),
            manager@.wf(),
    {
        let manager = IssuanceManagement {
            registry: None,
            campaign_management: None,
            salt_counter: 0,
            tokens: AddressMap::new(),
            symbols: NameMap::new(),
            events: Vec::new(),
        };
        assert(manager@ =~= IssuanceView::blank());
        manager
    }

    /// The issuance manager in the state that the parts describe and with
    /// nothing published yet.
    pub fn restore(
        registry: Option<Address>,
        campaign_management: Option<Address>,
        salt_counter: u32,
        tokens: AddressMap<TokenScope>,
        symbols: NameMap<Address>,
    ) -> (manager: IssuanceManagement)
        requires
            tokens.wf(),
            symbols.wf(),
        ensures
            manager@ == (IssuanceView {
                registry,
                campaign_management,
                salt_counter,
                tokens: map_values(tokens@, |scope: TokenScope| scope@),
                symbols: symbols@,
                events: Seq::empty(),
            }),
            manager@.wf(),
    {
        proof {
            lemma_map_values(tokens@, |scope: TokenScope| scope@);
        }
        let manager = IssuanceManagement {
            registry,
            campaign_management,
            salt_counter,
            tokens,
            symbols,
            events: Vec::new(),
        };
        assert(manager@ =~= (IssuanceView {
            registry,
            campaign_management,
            salt_counter,
            tokens: map_values(tokens@, |scope: TokenScope| scope@),
            symbols: symbols@,
            events: Seq::empty(),
        }));
        manager
    }

    /// The events published so far, in their order.
    pub fn events(&self) -> (events: &Vec<IssuanceEvent>)
        ensures
            published(events@) == self@.events,
    {
        &self.events
    }

    /// The scope of every issued token.
    pub fn tokens(&self) -> (tokens: &AddressMap<TokenScope>)
        ensures
            map_values(tokens@, |scope: TokenScope| scope@) == self@.tokens,
            self@.wf() ==> tokens.wf(),
    {
        proof {
            lemma_map_values(self.tokens@, |scope: TokenScope| scope@);
        }
        &self.tokens
    }

    /// Decides whether `auth` carries the authorization of `super_admin`.
    fn require_super_admin(&self, auth: &Auth, super_admin: Address) -> (outcome: Result<(), Error>)
        ensures
            outcome == self@.super_admin_gate(*auth, super_admin),
    {
        if self.registry.is_none() {
            Err(Error::AddressNotSet)
        } else if !auth.authorizes(super_admin) {
            Err(Error::Unauthorized)
        } else {
            Ok(())
        }
    }

    /// Binds the registry of a fresh issuance manager.
    pub fn initialize(&mut self, registry: Address) -> (outcome: Result<(), Error>)
        requires
            old(self)@.wf(),
        ensures
            final(self)@.wf(),
            settles(old(self)@.initialize(registry), old(self)@, outcome, final(self)@),
    {
        if self.has_registry() {
            return Err(Error::AlreadyInitialized);
        }
        self.registry = Some(registry);
        assert(self@ =~= old(self)@.initialize(registry).unwrap());
        Ok(())
    }

    /// Points the manager at another registry. `super_admin` is the super
    /// admin as the current registry reports it.
    pub fn set_registry(&mut self, auth: &Auth, super_admin: Address, address: Address) -> (outcome:
        Result<(), Error>)
        requires
            old(self)@.wf(),
        ensures
            final(self)@.wf(),
            settles(
                old(self)@.set_registry(*auth, super_admin, address),
                old(self)@,
                outcome,
                final(self)@,
            ),
    {
        self.require_super_admin(auth, super_admin)?;
        self.registry = Some(address);
        assert(self@ =~= old(self)@.set_registry(*auth, super_admin, address).unwrap());
        Ok(())
    }

    /// Records the campaign manager, which becomes the administrator of
    /// every token issued from now on.
    pub fn set_campaign_management(
        &mut self,
        auth: &Auth,
        super_admin: Address,
        address: Address,
    ) -> (outcome: Result<(), Error>)
        requires
            old(self)@.wf(),
        ensures
            final(self)@.wf(),
            settles(
                old(self)@.set_campaign_management(*auth, super_admin, address),
                old(self)@,
                outcome,
                final(self)@,
            ),
    {
        self.require_super_admin(auth, super_admin)?;
        self.campaign_management = Some(address);
        assert(self@ =~= old(self)@.set_campaign_management(*auth, super_admin, address).unwrap());
        Ok(())
    }

    /// Whether a token can be issued, and if not, why not.
    pub fn can_issue_new_token(
        &self,
        auth: &Auth,
        super_admin: Address,
        verified_merchants: &Vec<Address>,
        symbol: &String,
        merchants: &Vec<Address>,
    ) -> (outcome: Result<(), Error>)
        requires
            self@.wf(),
        ensures
            outcome == self@.issue_new_token_gate(
                *auth,
                super_admin,
                verified_merchants@,
                symbol@,
                merchants@,
            ),
    {
        self.require_super_admin(auth, super_admin)?;
        if self.symbols.contains_key(symbol) {
            return Err(Error::TokenSymbolExists);
        }
        if self.campaign_management.is_none() {
            return Err(Error::AddressNotSet);
        }
        if !all_listed(merchants, verified_merchants) {
            return Err(Error::UnverifiedMerchant);
        }
        if self.salt_counter > MAX_SALT {
            return Err(Error::SaltsExhausted);
        }
        Ok(())
    }

    /// Records a newly issued token. `super_admin` and `verified_merchants`
    /// are what the registry reports, and `token` is the address at which the
    /// token is deployed. The answer tells the salt of that deployment and
    /// the administrator to initialize the token with.
    pub fn issue_new_token(
        &mut self,
        auth: &Auth,
        super_admin: Address,
        verified_merchants: &Vec<Address>,
        token: Address,
        decimal: u32,
        name: String,
        symbol: String,
        items: Vec<String>,
        merchants: Vec<Address>,
    ) -> (outcome: Result<TokenDeployment, Error>)
        requires
            old(self)@.wf(),
        ensures
            final(self)@.wf(),
            settles_with(
                old(self)@.issue_new_token(
                    *auth,
                    super_admin,
                    verified_merchants@,
                    token,
                    decimal,
                    name,
                    symbol,
                    texts(items@),
                    merchants@,
                ),
                old(self)@,
                outcome,
                final(self)@,
            ),
    {
        self.can_issue_new_token(auth, super_admin, verified_merchants, &symbol, &merchants)?;
        let admin = match self.campaign_management {
            Some(admin) => admin,
            None => {
                return Err(Error::AddressNotSet);
            },
        };
        let ghost next = old(self)@.issue_new_token(
            *auth,
            super_admin,
            verified_merchants@,
            token,
            decimal,
            name,
            symbol,
            texts(items@),
            merchants@,
        ).unwrap().0;
        let salt = self.salt_counter;
        let ghost log = self@.events;
        let event = IssuanceEvent::NewTokenIssued {
            token,
            name,
            symbol: symbol.clone(),
            decimal,
            items: concat_names(&items, &Vec::new()),
            merchants: copy_addresses(&merchants),
        };
        proof {
            assert(texts(items@) + texts(Seq::<String>::empty()) =~= texts(items@));
        }
        self.events.push(event);
        assert(self@.events =~= log.push(event@));
        let scope = TokenScope { items, merchants };
        proof {
            lemma_map_values(self.tokens@, |scope: TokenScope| scope@);
            lemma_map_values_put(self.tokens@, |scope: TokenScope| scope@, token, scope);
            lemma_put(self@.tokens, token, scope@);
            lemma_put(self@.symbols, symbol@, token);
        }
        self.salt_counter = salt + 1;
        self.tokens.insert(token, scope);
        self.symbols.insert(symbol, token);
        assert(self@ =~= next);
        Ok(TokenDeployment { salt, admin })
    }

    /// Binds more items to an issued token.
    pub fn add_token_items(
        &mut self,
        auth: &Auth,
        super_admin: Address,
        token_address: Address,
        items: &Vec<String>,
    ) -> (outcome: Result<(), Error>)
        requires
            old(self)@.wf(),
        ensures
            final(self)@.wf(),
            settles(
                old(self)@.add_token_items(*auth, super_admin, token_address, texts(items@)),
                old(self)@,
                outcome,
                final(self)@,
            ),
    {
        self.require_super_admin(auth, super_admin)?;
        proof {
            lemma_map_values(self.tokens@, |scope: TokenScope| scope@);
        }
        let scope = match self.tokens.get(token_address) {
            None => {
                return Err(Error::TokenDoesNotExist);
            },
            Some(scope) => {
                if !no_name_listed(items, &scope.items) {
                    return Err(Error::ItemAlreadyExists);
                }
                TokenScope {
                    items: concat_names(&scope.items, items),
                    merchants: copy_addresses(&scope.merchants),
                }
            },
        };
        let ghost next = old(self)@.add_token_items(
            *auth,
            super_admin,
            token_address,
            texts(items@),
        ).unwrap();
        proof {
            lemma_map_values_put(self.tokens@, |scope: TokenScope| scope@, token_address, scope);
            lemma_put(self@.tokens, token_address, scope@);
        }
        let ghost log = self@.events;
        let event = IssuanceEvent::TokenItemsUpdated {
            token: token_address,
            items: concat_names(items, &Vec::new()),
        };
        proof {
            assert(texts(items@) + texts(Seq::<String>::empty()) =~= texts(items@));
        }
        self.events.push(event);
        assert(self@.events =~= log.push(event@));
        self.tokens.insert(token_address, scope);
        assert(self@ =~= next);
        Ok(())
    }

    /// Binds more merchants to an issued token. `super_admin` and
    /// `verified_merchants` are what the registry reports.
    pub fn add_token_merchants(
        &mut self,
        auth: &Auth,
        super_admin: Address,
        verified_merchants: &Vec<Address>,
        token_address: Address,
        merchants: &Vec<Address>,
    ) -> (outcome: Result<(), Error>)
        requires
            old(self)@.wf(),
        ensures
            final(self)@.wf(),
            settles(
                old(self)@.add_token_merchants(
                    *auth,
                    super_admin,
                    verified_merchants@,
                    token_address,
                    merchants@,
                ),
                old(self)@,
                outcome,
                final(self)@,
            ),
    {
        self.require_super_admin(auth, super_admin)?;
        proof {
            lemma_map_values(self.tokens@, |scope: TokenScope| scope@);
        }
        let scope = match self.tokens.get(token_address) {
            None => {
                return Err(Error::TokenDoesNotExist);
            },
            Some(scope) => {
                if !all_listed(merchants, verified_merchants) {
                    return Err(Error::UnverifiedMerchant);
                }
                if !none_listed(merchants, &scope.merchants) {
                    return Err(Error::MerchantAlreadyExists);
                }
                TokenScope {
                    items: concat_names(&scope.items, &Vec::new()),
                    merchants: concat_addresses(&scope.merchants, merchants),
                }
            },
        };
        let ghost next = old(self)@.add_token_merchants(
            *auth,
            super_admin,
            verified_merchants@,
            token_address,
            merchants@,
        ).unwrap();
        proof {
            assert(scope@.items =~= self@.items_of(token_address));
            lemma_map_values_put(self.tokens@, |scope: TokenScope| scope@, token_address, scope);
            lemma_put(self@.tokens, token_address, scope@);
        }
        let ghost log = self@.events;
        let event = IssuanceEvent::TokenMerchantsUpdated {
            token: token_address,
            merchants: copy_addresses(merchants),
        };
        self.events.push(event);
        assert(self@.events =~= log.push(event@));
        self.tokens.insert(token_address, scope);
        assert(self@ =~= next);
        Ok(())
    }

    /// A user's positive holdings, keyed by token name, from what every
    /// deployed token reports of the user.
    pub fn get_balance_of_batch(reports: &Vec<TokenReport>) -> (batch: NameMap<(i128, Address)>)
        ensures
            batch@ == holdings(reports@),
            batch.wf(),
    {
        let mut batch: NameMap<(i128, Address)> = NameMap::new();
        let mut i: usize = 0;
        assert(reports@.take(0) =~= Seq::<TokenReport>::empty());
        while i < reports.len()
            invariant
                i <= reports.len(),
                batch.wf(),
                batch@ == holdings(reports@.take(i as int)),
            decreases reports.len() - i,
        {
            assert(reports@.take(i + 1).drop_last() =~= reports@.take(i as int));
            assert(reports@.take(i + 1).last() == reports@[i as int]);
            let report = &reports[i];
            if report.balance > 0 {
                batch.insert(report.name.clone(), (report.balance, report.token));
            }
            i = i + 1;
        }
        assert(reports@.take(reports@.len() as int) =~= reports@);
        batch
    }

    /// The registry.
    pub fn get_registry(&self) -> (found: Result<Address, Error>)
        ensures
            found == match self@.registry {
                Some(address) => Ok::<Address, Error>(address),
                None => Err::<Address, Error>(Error::AddressNotSet),
            },
    {
        match self.registry {
            Some(address) => Ok(address),
            None => Err(Error::AddressNotSet),
        }
    }

    /// The campaign manager.
    pub fn get_campaign_management(&self) -> (found: Result<Address, Error>)
        ensures
            found == match self@.campaign_management {
                Some(address) => Ok::<Address, Error>(address),
                None => Err::<Address, Error>(Error::AddressNotSet),
            },
    {
        match self.campaign_management {
            Some(address) => Ok(address),
            None => Err(Error::AddressNotSet),
        }
    }

    /// The merchants bound to `token_address`; none for an unknown token.
    pub fn get_merchants_associated(&self, token_address: Address) -> (merchants: Vec<Address>)
        requires
            self@.wf(),
        ensures
            merchants@ == self@.merchants_of(token_address),
    {
        proof {
            lemma_map_values(self.tokens@, |scope: TokenScope| scope@);
        }
        match self.tokens.get(token_address) {
            Some(scope) => copy_addresses(&scope.merchants),
            None => Vec::new(),
        }
    }

    /// The items bound to `token_address`; none for an unknown token.
    pub fn get_items_associated(&self, token_address: Address) -> (items: Vec<String>)
        requires
            self@.wf(),
        ensures
            texts(items@) == self@.items_of(token_address),
    {
        proof {
            lemma_map_values(self.tokens@, |scope: TokenScope| scope@);
        }
        match self.tokens.get(token_address) {
            Some(scope) => {
                let items = concat_names(&scope.items, &Vec::new());
                assert(texts(items@) =~= texts(scope.items@));
                items
            },
            None => {
                let items: Vec<String> = Vec::new();
                assert(texts(items@) =~= Seq::<Seq<char>>::empty());
                items
            },
        }
    }

    /// The token issued under every symbol in use.
    pub fn get_token_name_address(&self) -> (symbols: &NameMap<Address>)
        ensures
            symbols@ == self@.symbols,
    {
        &self.symbols
    }

    /// Whether the manager knows a token at `token_address`.
    pub fn has_token(&self, token_address: Address) -> (known: bool)
        requires
            self@.wf(),
        ensures
            known == has_key(self@.tokens, token_address),
    {
        proof {
            lemma_map_values(self.tokens@, |scope: TokenScope| scope@);
        }
        self.tokens.contains_key(token_address)
    }

    /// The salt of the next deployment.
    pub fn salt_counter(&self) -> (salt: u32)
        ensures
            salt == self@.salt_counter,
    {
        self.salt_counter
    }

    /// Whether the issuance manager has been initialized.
    pub fn has_registry(&self) -> (set: bool)
        ensures
            set == self@.registry.is_some(),
    {
        self.registry.is_some()
    }
}

} // verus!
