use crate::address::{Address, Auth};
use crate::collections::{
    contains_address, distinct, distinct_keys, has_key, is_distinct, lemma_key_index_unique,
    lemma_push_address, lemma_put, lemma_remove_address, none_listed, put, remove_address,
    remove_first, value_of, AddressMap,
};
use crate::error::{settles, Error};
use vstd::prelude::*;

verus! {

/// A merchant's profile as the registry keeps it.
#[derive(Clone, Debug, PartialEq, Eq)]
pub struct MerchantInfo {
    pub verified_status: bool,
    pub proprietor: String,
    pub phone_no: String,
    pub store_name: String,
    pub location: String,
}

impl MerchantInfo {
    /// A copy of the profile.
    pub fn duplicate(&self) -> (copy: MerchantInfo)
        ensures
            copy == *self,
    {
        MerchantInfo {
            verified_status: self.verified_status,
            proprietor: self.proprietor.clone(),
            phone_no: self.phone_no.clone(),
            store_name: self.store_name.clone(),
            location: self.location.clone(),
        }
    }
}

/// What the registry publishes when a merchant's record changes.
#[derive(Clone, Debug, PartialEq, Eq)]
pub enum RegistryEvent {
    VerificationRequestSent { merchant: Address, info: MerchantInfo },
    MerchantInfoUpdated { merchant: Address, info: MerchantInfo },
    MerchantVerified { merchant: Address, info: MerchantInfo },
}

/// The authority directory: the super admin, the sibling contracts, the
/// merchants with their verification state, the deployed tokens, the owner of
/// every campaign, and what the registry has published.
pub struct Regisrty {
    super_admin: Option<Address>,
    campaign_management: Option<Address>,
    issuance_management: Option<Address>,
    verified: Vec<Address>,
    unverified: Vec<Address>,
    tokens: Vec<Address>,
    merchants: AddressMap<MerchantInfo>,
    campaign_admins: AddressMap<Address>,
    events: Vec<RegistryEvent>,
}

/// The state of the registry as contracts speak of it.
#[verifier::ext_equal]
pub struct RegistryView {
    pub super_admin: Option<Address>,
    pub campaign_management: Option<Address>,
    pub issuance_management: Option<Address>,
    /// The verified merchants, in the order of their verification.
    pub verified: Seq<Address>,
    /// The merchants that wait for verification, in the order of their
    /// requests.
    pub unverified: Seq<Address>,
    /// The deployed tokens, in the order of their issuance.
    pub tokens: Seq<Address>,
    /// The profile of every registered merchant.
    pub merchants: Seq<(Address, MerchantInfo)>,
    /// The owner of every campaign.
    pub campaign_admins: Seq<(Address, Address)>,
    /// The events published so far, in their order.
    pub events: Seq<RegistryEvent>,
}

/// The consistency of the merchant directory: neither merchant list repeats
/// an address, the two lists share none, a merchant has a profile exactly
/// when it is in one of them, and a profile says "verified" exactly when its
/// merchant is in the verified list.
pub open spec fn directory_wf(
    merchants: Seq<(Address, MerchantInfo)>,
    verified: Seq<Address>,
    unverified: Seq<Address>,
) -> bool {
    &&& distinct(verified)
    &&& distinct(unverified)
    &&& distinct_keys(merchants)
    &&& forall|m: Address|
        #![trigger verified.contains(m)]
        #![trigger unverified.contains(m)]
        !(verified.contains(m) && unverified.contains(m))
    &&& forall|m: Address|
        #![trigger has_key(merchants, m)]
        #![trigger verified.contains(m)]
        #![trigger unverified.contains(m)]
        has_key(merchants, m) == (verified.contains(m) || unverified.contains(m))
    &&& forall|m: Address| #[trigger]
        has_key(merchants, m) ==> value_of(merchants, m).verified_status == verified.contains(m)
}

impl RegistryView {
    /// Whether `merchant` has a registration record.
    pub open spec fn registered(self, merchant: Address) -> bool {
        has_key(self.merchants, merchant)
    }

    /// The registry's invariant: the merchant directory is consistent and
    /// every campaign has one owner.
    pub open spec fn wf(self) -> bool {
        &&& directory_wf(self.merchants, self.verified, self.unverified)
        &&& distinct_keys(self.campaign_admins)
    }

    /// The state of a registry that nobody has touched yet.
    pub open spec fn blank() -> RegistryView {
        RegistryView {
            super_admin: None,
            campaign_management: None,
            issuance_management: None,
            verified: Seq::empty(),
            unverified: Seq::empty(),
            tokens: Seq::empty(),
            merchants: Seq::empty(),
            campaign_admins: Seq::empty(),
            events: Seq::empty(),
        }
    }

    /// What an entry point that only the super admin may call answers before
    /// it does anything else.
    pub open spec fn super_admin_gate(self, auth: Auth) -> Result<(), Error> {
        if self.super_admin.is_none() {
            Err(Error::SuperAdminNotSet)
        } else if !auth.covers(self.super_admin.unwrap()) {
            Err(Error::Unauthorized)
        } else {
            Ok(())
        }
    }

    /// `initialize`: binds the super admin, once.
    pub open spec fn initialize(self, super_admin: Address) -> Result<RegistryView, Error> {
        if self.super_admin.is_some() {
            Err(Error::AlreadyInitialized)
        } else {
            Ok(RegistryView { super_admin: Some(super_admin), ..self })
        }
    }

    /// `set_campaign_management`: the super admin records the campaign
    /// manager; the last writer wins.
    pub open spec fn set_campaign_management(self, auth: Auth, address: Address) -> Result<
        RegistryView,
        Error,
    > {
        match self.super_admin_gate(auth) {
            Err(e) => Err(e),
            Ok(_) => Ok(RegistryView { campaign_management: Some(address), ..self }),
        }
    }

    /// `set_issuance_management`: the super admin records the issuance
    /// manager; the last writer wins.
    pub open spec fn set_issuance_management(self, auth: Auth, address: Address) -> Result<
        RegistryView,
        Error,
    > {
        match self.super_admin_gate(auth) {
            Err(e) => Err(e),
            Ok(_) => Ok(RegistryView { issuance_management: Some(address), ..self }),
        }
    }

    /// `set_super_admin`: the super admin names its successor.
    pub open spec fn set_super_admin(self, auth: Auth, address: Address) -> Result<
        RegistryView,
        Error,
    > {
        match self.super_admin_gate(auth) {
            Err(e) => Err(e),
            Ok(_) => Ok(RegistryView { super_admin: Some(address), ..self }),
        }
    }

    /// `merchant_registration`: files an unverified record for a merchant
    /// that has none, queues the merchant for verification and publishes
    /// the request.
    pub open spec fn merchant_registration(
        self,
        merchant: Address,
        proprietor: String,
        phone_no: String,
        store_name: String,
        location: String,
    ) -> Result<RegistryView, Error> {
        if self.registered(merchant) {
            Err(Error::RegistrationAlreadySent)
        } else {
            Ok(
                RegistryView {
                    merchants: put(
                        self.merchants,
                        merchant,
                        MerchantInfo {
                            verified_status: false,
                            proprietor,
                            phone_no,
                            store_name,
                            location,
                        },
                    ),
                    unverified: self.unverified.push(merchant),
                    events: self.events.push(
                        RegistryEvent::VerificationRequestSent {
                            merchant,
                            info: MerchantInfo {
                                verified_status: false,
                                proprietor,
                                phone_no,
                                store_name,
                                location,
                            },
                        },
                    ),
                    ..self
                },
            )
        }
    }

    /// `verify_merchant`: the super admin moves a registered, unverified
    /// merchant from the waiting list to the verified list, marks its
    /// profile and publishes the verification.
    pub open spec fn verify_merchant(self, auth: Auth, merchant: Address) -> Result<
        RegistryView,
        Error,
    > {
        match self.super_admin_gate(auth) {
            Err(e) => Err(e),
            Ok(_) => if !self.registered(merchant) {
                Err(Error::NoRegistrationRequest)
            } else if self.verified.contains(merchant) {
                Err(Error::MerchantAlreadyVerified)
            } else {
                Ok(
                    RegistryView {
                        merchants: put(
                            self.merchants,
                            merchant,
                            MerchantInfo {
                                verified_status: true,
                                ..value_of(self.merchants, merchant)
                            },
                        ),
                        verified: self.verified.push(merchant),
                        unverified: remove_address(self.unverified, merchant),
                        events: self.events.push(
                            RegistryEvent::MerchantVerified {
                                merchant,
                                info: MerchantInfo {
                                    verified_status: true,
                                    ..value_of(self.merchants, merchant)
                                },
                            },
                        ),
                        ..self
                    },
                )
            },
        }
    }

    /// `update_merchant_info`: the super admin rewrites the profile of a
    /// verified merchant and publishes the update; with `verify_status`
    /// false the merchant goes back to the waiting list.
    pub open spec fn update_merchant_info(
        self,
        auth: Auth,
        merchant: Address,
        verify_status: bool,
        proprietor: String,
        phone_no: String,
        store_name: String,
        location: String,
    ) -> Result<RegistryView, Error> {
        match self.super_admin_gate(auth) {
            Err(e) => Err(e),
            Ok(_) => if !self.registered(merchant) {
                Err(Error::NoRegistrationRequestFromMerchant)
            } else if !self.verified.contains(merchant) {
                Err(Error::MerchantNotVerified)
            } else {
                Ok(
                    RegistryView {
                        merchants: put(
                            self.merchants,
                            merchant,
                            MerchantInfo {
                                verified_status: verify_status,
                                proprietor,
                                phone_no,
                                store_name,
                                location,
                            },
                        ),
                        verified: if verify_status {
                            self.verified
                        } else {
                            remove_address(self.verified, merchant)
                        },
                        unverified: if verify_status {
                            self.unverified
                        } else {
                            self.unverified.push(merchant)
                        },
                        events: self.events.push(
                            RegistryEvent::MerchantInfoUpdated {
                                merchant,
                                info: MerchantInfo {
                                    verified_status: verify_status,
                                    proprietor,
                                    phone_no,
                                    store_name,
                                    location,
                                },
                            },
                        ),
                        ..self
                    },
                )
            },
        }
    }

    /// What an entry point that only the campaign manager may call answers
    /// before it does anything else.
    pub open spec fn campaign_management_gate(self, auth: Auth) -> Result<(), Error> {
        if self.campaign_management.is_none() {
            Err(Error::CampaignManagementNotSet)
        } else if !auth.covers(self.campaign_management.unwrap()) {
            Err(Error::Unauthorized)
        } else {
            Ok(())
        }
    }

    /// What an entry point that only the issuance manager may call answers
    /// before it does anything else.
    pub open spec fn issuance_management_gate(self, auth: Auth) -> Result<(), Error> {
        if self.issuance_management.is_none() {
            Err(Error::IssuanceManagementNotSet)
        } else if !auth.covers(self.issuance_management.unwrap()) {
            Err(Error::Unauthorized)
        } else {
            Ok(())
        }
    }

    /// `set_campaign_admin`: the campaign manager records the owner of a
    /// campaign.
    pub open spec fn set_campaign_admin(
        self,
        auth: Auth,
        campaign: Address,
        admin: Address,
    ) -> Result<RegistryView, Error> {
        match self.campaign_management_gate(auth) {
            Err(e) => Err(e),
            Ok(_) => Ok(
                RegistryView { campaign_admins: put(self.campaign_admins, campaign, admin), ..self },
            ),
        }
    }

    /// `add_deployed_tokens`: the issuance manager appends a token.
    pub open spec fn add_deployed_tokens(self, auth: Auth, token: Address) -> Result<
        RegistryView,
        Error,
    > {
        match self.issuance_management_gate(auth) {
            Err(e) => Err(e),
            Ok(_) => Ok(RegistryView { tokens: self.tokens.push(token), ..self }),
        }
    }
}

/// A registered merchant is at any time in exactly one of the two merchant
/// lists: in the verified one or in the unverified one, never in both and
/// never in neither.
pub proof fn lemma_merchant_in_exactly_one_list(registry: RegistryView, merchant: Address)
    requires
        registry.wf(),
        registry.registered(merchant),
    ensures
        registry.verified.contains(merchant) != registry.unverified.contains(merchant),
{
}

/// A second `initialize` is refused as "already initialized" and leaves the
/// registry as the first one left it.
pub proof fn lemma_second_initialize_is_refused(
    registry: RegistryView,
    first: Address,
    second: Address,
    outcome: Result<(), Error>,
    after: RegistryView,
)
    requires
        registry.initialize(first) matches Ok(once) && settles(
            once.initialize(second),
            once,
            outcome,
            after,
        ),
    ensures
        outcome == Err::<(), Error>(Error::AlreadyInitialized),
        after == registry.initialize(first).unwrap(),
{
}

/// A registration leaves a well-formed registry.
pub proof fn lemma_registration_keeps_wf(
    registry: RegistryView,
    merchant: Address,
    proprietor: String,
    phone_no: String,
    store_name: String,
    location: String,
)
    requires
        registry.wf(),
    ensures
        registry.merchant_registration(merchant, proprietor, phone_no, store_name, location) matches Ok(
            next,
        ) ==> next.wf(),
{
    if let Ok(next) = registry.merchant_registration(
        merchant,
        proprietor,
        phone_no,
        store_name,
        location,
    ) {
        let info = MerchantInfo {
            verified_status: false,
            proprietor,
            phone_no,
            store_name,
            location,
        };
        lemma_put(registry.merchants, merchant, info);
        lemma_push_address(registry.unverified, merchant);
        lemma_lookup_after_put(registry.merchants, merchant, info);
    }
}

/// How membership and values read after a `put`.
proof fn lemma_lookup_after_put(s: Seq<(Address, MerchantInfo)>, k: Address, v: MerchantInfo)
    requires
        distinct_keys(s),
    ensures
        forall|m: Address| has_key(put(s, k, v), m) == (m == k || has_key(s, m)),
        value_of(put(s, k, v), k) == v,
        forall|m: Address| m != k && has_key(s, m) ==> value_of(put(s, k, v), m) == value_of(s, m),
{
    lemma_put(s, k, v);
    assert forall|m: Address| has_key(put(s, k, v), m) == (m == k || has_key(s, m)) by {
        if m != k {
            assert(crate::collections::lookup(put(s, k, v), m) == crate::collections::lookup(s, m));
        } else {
            assert(crate::collections::lookup(put(s, k, v), k) == Some(v));
        }
    }
    assert forall|m: Address| m != k && has_key(s, m) implies value_of(put(s, k, v), m)
        == value_of(s, m) by {
        assert(crate::collections::lookup(put(s, k, v), m) == crate::collections::lookup(s, m));
    }
    assert(crate::collections::lookup(put(s, k, v), k) == Some(v));
}

/// A verification leaves a well-formed registry.
pub proof fn lemma_verification_keeps_wf(registry: RegistryView, auth: Auth, merchant: Address)
    requires
        registry.wf(),
    ensures
        registry.verify_merchant(auth, merchant) matches Ok(next) ==> next.wf(),
{
    if let Ok(next) = registry.verify_merchant(auth, merchant) {
        let info = MerchantInfo {
            verified_status: true,
            ..value_of(registry.merchants, merchant)
        };
        lemma_lookup_after_put(registry.merchants, merchant, info);
        lemma_push_address(registry.verified, merchant);
        lemma_remove_address(registry.unverified, merchant);
        lemma_directory_step(
            registry.merchants,
            registry.verified,
            registry.unverified,
            next.merchants,
            next.verified,
            next.unverified,
            merchant,
        );
    }
}

/// A step that changes the directory for one merchant only, and leaves that
/// merchant with a consistent profile in exactly one list, keeps the directory
/// consistent.
proof fn lemma_directory_step(
    merchants: Seq<(Address, MerchantInfo)>,
    verified: Seq<Address>,
    unverified: Seq<Address>,
    next_merchants: Seq<(Address, MerchantInfo)>,
    next_verified: Seq<Address>,
    next_unverified: Seq<Address>,
    merchant: Address,
)
    requires
        directory_wf(merchants, verified, unverified),
        distinct(next_verified),
        distinct(next_unverified),
        distinct_keys(next_merchants),
        has_key(next_merchants, merchant),
        next_verified.contains(merchant) != next_unverified.contains(merchant),
        value_of(next_merchants, merchant).verified_status == next_verified.contains(merchant),
        forall|m: Address|
            m != merchant ==> #[trigger] has_key(next_merchants, m) == has_key(merchants, m),
        forall|m: Address|
            m != merchant && has_key(merchants, m) ==> #[trigger] value_of(next_merchants, m)
                == value_of(merchants, m),
        forall|m: Address|
            m != merchant ==> #[trigger] next_verified.contains(m) == verified.contains(m),
        forall|m: Address|
            m != merchant ==> #[trigger] next_unverified.contains(m) == unverified.contains(m),
    ensures
        directory_wf(next_merchants, next_verified, next_unverified),
{
    assert forall|m: Address|
        #![trigger next_verified.contains(m)]
        #![trigger next_unverified.contains(m)]
        !(next_verified.contains(m) && next_unverified.contains(m)) by {
        if m != merchant {
            assert(next_verified.contains(m) == verified.contains(m));
            assert(next_unverified.contains(m) == unverified.contains(m));
        }
    }
    assert forall|m: Address|
        #![trigger has_key(next_merchants, m)]
        #![trigger next_verified.contains(m)]
        #![trigger next_unverified.contains(m)]
        has_key(next_merchants, m) == (next_verified.contains(m) || next_unverified.contains(
            m,
        )) by {
        if m != merchant {
            assert(has_key(next_merchants, m) == has_key(merchants, m));
            assert(next_verified.contains(m) == verified.contains(m));
            assert(next_unverified.contains(m) == unverified.contains(m));
        }
    }
    assert forall|m: Address| #[trigger] has_key(next_merchants, m) implies value_of(
        next_merchants,
        m,
    ).verified_status == next_verified.contains(m) by {
        if m != merchant {
            assert(has_key(next_merchants, m) == has_key(merchants, m));
            assert(value_of(next_merchants, m) == value_of(merchants, m));
            assert(next_verified.contains(m) == verified.contains(m));
        }
    }
}

/// An update of a merchant's profile leaves a well-formed registry.
pub proof fn lemma_update_keeps_wf(
    registry: RegistryView,
    auth: Auth,
    merchant: Address,
    verify_status: bool,
    proprietor: String,
    phone_no: String,
    store_name: String,
    location: String,
)
    requires
        registry.wf(),
    ensures
        registry.update_merchant_info(
            auth,
            merchant,
            verify_status,
            proprietor,
            phone_no,
            store_name,
            location,
        ) matches Ok(next) ==> next.wf(),
{
    if let Ok(next) = registry.update_merchant_info(
        auth,
        merchant,
        verify_status,
        proprietor,
        phone_no,
        store_name,
        location,
    ) {
        let info = MerchantInfo {
            verified_status: verify_status,
            proprietor,
            phone_no,
            store_name,
            location,
        };
        lemma_lookup_after_put(registry.merchants, merchant, info);
        if !verify_status {
            lemma_remove_address(registry.verified, merchant);
            lemma_push_address(registry.unverified, merchant);
        }
        lemma_directory_step(
            registry.merchants,
            registry.verified,
            registry.unverified,
            next.merchants,
            next.verified,
            next.unverified,
            merchant,
        );
    }
}

impl View for Regisrty {
    type V = RegistryView;

    closed spec fn view(&self) -> RegistryView {
        RegistryView {
            super_admin: self.super_admin,
            campaign_management: self.campaign_management,
            issuance_management: self.issuance_management,
            verified: self.verified@,
            unverified: self.unverified@,
            tokens: self.tokens@,
            merchants: self.merchants@,
            campaign_admins: self.campaign_admins@,
            events: self.events@,
        }
    }
}

impl Regisrty {
    /// A registry that nobody has touched yet.
    pub fn new() -> (registry: Regisrty)
        ensures
            registry@ == RegistryView::blank(),
            registry@.wf(),
    {
        let registry = Regisrty {
            super_admin: None,
            campaign_management: None,
            issuance_management: None,
            verified: Vec::new(),
            unverified: Vec::new(),
            tokens: Vec::new(),
            merchants: AddressMap::new(),
            campaign_admins: AddressMap::new(),
            events: Vec::new(),
        };
        assert(registry@ =~= RegistryView::blank());
        registry
    }

    /// The registry in the state that the parts describe and with nothing
    /// published yet, provided that the parts describe a well-formed
    /// registry.
    pub fn restore(
        super_admin: Option<Address>,
        campaign_management: Option<Address>,
        issuance_management: Option<Address>,
        verified: Vec<Address>,
        unverified: Vec<Address>,
        tokens: Vec<Address>,
        merchants: AddressMap<MerchantInfo>,
        campaign_admins: AddressMap<Address>,
    ) -> (made: Option<Regisrty>)
        requires
            merchants.wf(),
            campaign_admins.wf(),
        ensures
            made.is_some() == directory_wf(merchants@, verified@, unverified@),
            made matches Some(registry) ==> registry@ == (RegistryView {
                super_admin,
                campaign_management,
                issuance_management,
                verified: verified@,
                unverified: unverified@,
                tokens: tokens@,
                merchants: merchants@,
                campaign_admins: campaign_admins@,
                events: Seq::empty(),
            }) && registry@.wf(),
    {
        if !is_distinct(&verified) || !is_distinct(&unverified) {
            return None;
        }
        if !none_listed(&verified, &unverified) {
            proof {
                let i = choose|i: int|
                    0 <= i < verified@.len() && unverified@.contains(#[trigger] verified@[i]);
                assert(verified@.contains(verified@[i]));
            }
            return None;
        }
        let mut i: usize = 0;
        while i < merchants.len()
            invariant
                i <= merchants@.len(),
                merchants.wf(),
                forall|j: int|
                    0 <= j < i ==> {
                        &&& verified@.contains((#[trigger] merchants@[j]).0) || unverified@.contains(
                            merchants@[j].0,
                        )
                        &&& merchants@[j].1.verified_status == verified@.contains(merchants@[j].0)
                    },
            decreases merchants@.len() - i,
        {
            let (merchant, info) = merchants.entry(i);
            let listed = contains_address(&verified, merchant);
            let waiting = contains_address(&unverified, merchant);
            proof {
                lemma_key_index_unique(merchants@, i as int);
            }
            if !(listed || waiting) || info.verified_status != listed {
                return None;
            }
            i = i + 1;
        }
        let mut v: usize = 0;
        while v < verified.len()
            invariant
                v <= verified@.len(),
                merchants.wf(),
                forall|j: int| 0 <= j < v ==> has_key(merchants@, #[trigger] verified@[j]),
            decreases verified@.len() - v,
        {
            if !merchants.contains_key(verified[v]) {
                assert(verified@.contains(verified@[v as int]));
                return None;
            }
            v = v + 1;
        }
        let mut u: usize = 0;
        while u < unverified.len()
            invariant
                u <= unverified@.len(),
                merchants.wf(),
                forall|j: int| 0 <= j < u ==> has_key(merchants@, #[trigger] unverified@[j]),
            decreases unverified@.len() - u,
        {
            if !merchants.contains_key(unverified[u]) {
                assert(unverified@.contains(unverified@[u as int]));
                return None;
            }
            u = u + 1;
        }
        proof {
            assert forall|m: Address|
                #![trigger verified@.contains(m)]
                #![trigger unverified@.contains(m)]
                !(verified@.contains(m) && unverified@.contains(m)) by {
                if verified@.contains(m) {
                    let i = choose|i: int| 0 <= i < verified@.len() && verified@[i] == m;
                    assert(!unverified@.contains(verified@[i]));
                }
            }
            assert forall|m: Address|
                #![trigger has_key(merchants@, m)]
                #![trigger verified@.contains(m)]
                #![trigger unverified@.contains(m)]
                has_key(merchants@, m) == (verified@.contains(m) || unverified@.contains(m)) by {
                if has_key(merchants@, m) {
                    let i = crate::collections::key_index(merchants@, m);
                    assert(merchants@[i].0 == m);
                }
                if verified@.contains(m) {
                    let i = choose|i: int| 0 <= i < verified@.len() && verified@[i] == m;
                    assert(has_key(merchants@, verified@[i]));
                }
                if unverified@.contains(m) {
                    let i = choose|i: int| 0 <= i < unverified@.len() && unverified@[i] == m;
                    assert(has_key(merchants@, unverified@[i]));
                }
            }
            assert forall|m: Address| #[trigger] has_key(merchants@, m) implies value_of(
                merchants@,
                m,
            ).verified_status == verified@.contains(m) by {
                let i = crate::collections::key_index(merchants@, m);
                assert(merchants@[i].0 == m);
            }
        }
        let registry = Regisrty {
            super_admin,
            campaign_management,
            issuance_management,
            verified,
            unverified,
            tokens,
            merchants,
            campaign_admins,
            events: Vec::new(),
        };
        assert(registry@ =~= (RegistryView {
            super_admin,
            campaign_management,
            issuance_management,
            verified: verified@,
            unverified: unverified@,
            tokens: tokens@,
            merchants: merchants@,
            campaign_admins: campaign_admins@,
            events: Seq::empty(),
        }));
        Some(registry)
    }

    /// The events published so far, in their order.
    pub fn events(&self) -> (events: &Vec<RegistryEvent>)
        ensures
            events@ == self@.events,
    {
        &self.events
    }

    /// The profile of every registered merchant.
    pub fn merchants(&self) -> (merchants: &AddressMap<MerchantInfo>)
        ensures
            merchants@ == self@.merchants,
            self@.wf() ==> merchants.wf(),
    {
        &self.merchants
    }

    /// The owner of every campaign.
    pub fn campaign_admins(&self) -> (owners: &AddressMap<Address>)
        ensures
            owners@ == self@.campaign_admins,
            self@.wf() ==> owners.wf(),
    {
        &self.campaign_admins
    }

    /// Decides whether `auth` carries the super admin's authorization.
    fn require_super_admin(&self, auth: &Auth) -> (outcome: Result<(), Error>)
        ensures
            outcome == self@.super_admin_gate(*auth),
    {
        match self.super_admin {
            None => Err(Error::SuperAdminNotSet),
            Some(admin) => if auth.authorizes(admin) {
                Ok(())
            } else {
                Err(Error::Unauthorized)
            },
        }
    }

    /// Binds the super admin of a fresh registry.
    pub fn initialize(&mut self, super_admin: Address) -> (outcome: Result<(), Error>)
        requires
            old(self)@.wf(),
        ensures
            final(self)@.wf(),
            settles(old(self)@.initialize(super_admin), old(self)@, outcome, final(self)@),
    {
        if self.has_administrator() {
            return Err(Error::AlreadyInitialized);
        }
        self.super_admin = Some(super_admin);
        assert(self@ =~= old(self)@.initialize(super_admin).unwrap());
        Ok(())
    }

    /// Records the campaign manager's address.
    pub fn set_campaign_management(
        &mut self,
        auth: &Auth,
        campaign_management: Address,
    ) -> (outcome: Result<(), Error>)
        requires
            old(self)@.wf(),
        ensures
            final(self)@.wf(),
            settles(
                old(self)@.set_campaign_management(*auth, campaign_management),
                old(self)@,
                outcome,
                final(self)@,
            ),
    {
        self.require_super_admin(auth)?;
        self.campaign_management = Some(campaign_management);
        assert(self@ =~= old(self)@.set_campaign_management(*auth, campaign_management).unwrap());
        Ok(())
    }

    /// Records the issuance manager's address.
    pub fn set_issuance_management(
        &mut self,
        auth: &Auth,
        issuance_management: Address,
    ) -> (outcome: Result<(), Error>)
        requires
            old(self)@.wf(),
        ensures
            final(self)@.wf(),
            settles(
                old(self)@.set_issuance_management(*auth, issuance_management),
                old(self)@,
                outcome,
                final(self)@,
            ),
    {
        self.require_super_admin(auth)?;
        self.issuance_management = Some(issuance_management);
        assert(self@ =~= old(self)@.set_issuance_management(*auth, issuance_management).unwrap());
        Ok(())
    }

    /// Hands the super admin's office over to `new_super_admin`.
    pub fn set_super_admin(&mut self, auth: &Auth, new_super_admin: Address) -> (outcome: Result<
        (),
        Error,
    >)
        requires
            old(self)@.wf(),
        ensures
            final(self)@.wf(),
            settles(
                old(self)@.set_super_admin(*auth, new_super_admin),
                old(self)@,
                outcome,
                final(self)@,
            ),
    {
        self.require_super_admin(auth)?;
        self.super_admin = Some(new_super_admin);
        assert(self@ =~= old(self)@.set_super_admin(*auth, new_super_admin).unwrap());
        Ok(())
    }

    /// Files a merchant's request for verification.
    pub fn merchant_registration(
        &mut self,
        merchant_addr: Address,
        proprietor: String,
        phone_no: String,
        store_name: String,
        location: String,
    ) -> (outcome: Result<(), Error>)
        requires
            old(self)@.wf(),
        ensures
            final(self)@.wf(),
            settles(
                old(self)@.merchant_registration(
                    merchant_addr,
                    proprietor,
                    phone_no,
                    store_name,
                    location,
                ),
                old(self)@,
                outcome,
                final(self)@,
            ),
    {
        if self.merchants.contains_key(merchant_addr) {
            return Err(Error::RegistrationAlreadySent);
        }
        proof {
            lemma_registration_keeps_wf(
                self@,
                merchant_addr,
                proprietor,
                phone_no,
                store_name,
                location,
            );
        }
        let ghost next = old(self)@.merchant_registration(
            merchant_addr,
            proprietor,
            phone_no,
            store_name,
            location,
        ).unwrap();
        let info = MerchantInfo {
            verified_status: false,
            proprietor,
            phone_no,
            store_name,
            location,
        };
        self.events.push(
            RegistryEvent::VerificationRequestSent {
                merchant: merchant_addr,
                info: info.duplicate(),
            },
        );
        self.merchants.insert(merchant_addr, info);
        self.unverified.push(merchant_addr);
        assert(self@ =~= next);
        Ok(())
    }

    /// Verifies a merchant that has asked for it.
    pub fn verify_merchant(&mut self, auth: &Auth, merchant_addr: Address) -> (outcome: Result<
        (),
        Error,
    >)
        requires
            old(self)@.wf(),
        ensures
            final(self)@.wf(),
            settles(
                old(self)@.verify_merchant(*auth, merchant_addr),
                old(self)@,
                outcome,
                final(self)@,
            ),
    {
        self.require_super_admin(auth)?;
        let info = match self.merchants.get(merchant_addr) {
            None => {
                return Err(Error::NoRegistrationRequest);
            },
            Some(info) => MerchantInfo { verified_status: true, ..info.duplicate() },
        };
        if contains_address(&self.verified, merchant_addr) {
            return Err(Error::MerchantAlreadyVerified);
        }
        proof {
            lemma_verification_keeps_wf(self@, *auth, merchant_addr);
        }
        let ghost next = old(self)@.verify_merchant(*auth, merchant_addr).unwrap();
        self.events.push(
            RegistryEvent::MerchantVerified { merchant: merchant_addr, info: info.duplicate() },
        );
        self.merchants.insert(merchant_addr, info);
        self.verified.push(merchant_addr);
        let moved = remove_first(&mut self.unverified, merchant_addr);
        assert(self@ =~= next);
        Ok(())
    }

    /// Rewrites the profile of a verified merchant, and withdraws its
    /// verification where `verify_status` is false.
    pub fn update_merchant_info(
        &mut self,
        auth: &Auth,
        merchant_addr: Address,
        verify_status: bool,
        proprietor: String,
        phone_no: String,
        store_name: String,
        location: String,
    ) -> (outcome: Result<(), Error>)
        requires
            old(self)@.wf(),
        ensures
            final(self)@.wf(),
            settles(
                old(self)@.update_merchant_info(
                    *auth,
                    merchant_addr,
                    verify_status,
                    proprietor,
                    phone_no,
                    store_name,
                    location,
                ),
                old(self)@,
                outcome,
                final(self)@,
            ),
    {
        self.require_super_admin(auth)?;
        if !self.merchants.contains_key(merchant_addr) {
            return Err(Error::NoRegistrationRequestFromMerchant);
        }
        if !contains_address(&self.verified, merchant_addr) {
            return Err(Error::MerchantNotVerified);
        }
        proof {
            lemma_update_keeps_wf(
                self@,
                *auth,
                merchant_addr,
                verify_status,
                proprietor,
                phone_no,
                store_name,
                location,
            );
        }
        let ghost next = old(self)@.update_merchant_info(
            *auth,
            merchant_addr,
            verify_status,
            proprietor,
            phone_no,
            store_name,
            location,
        ).unwrap();
        let info = MerchantInfo {
            verified_status: verify_status,
            proprietor,
            phone_no,
            store_name,
            location,
        };
        self.events.push(
            RegistryEvent::MerchantInfoUpdated { merchant: merchant_addr, info: info.duplicate() },
        );
        self.merchants.insert(merchant_addr, info);
        if !verify_status {
            let moved = remove_first(&mut self.verified, merchant_addr);
            self.unverified.push(merchant_addr);
        }
        assert(self@ =~= next);
        Ok(())
    }

    /// Whether `auth` carries the campaign manager's authorization, and if
    /// not, why not.
    pub fn can_set_campaign_admin(&self, auth: &Auth) -> (outcome: Result<(), Error>)
        ensures
            outcome == self@.campaign_management_gate(*auth),
    {
        match self.campaign_management {
            None => Err(Error::CampaignManagementNotSet),
            Some(manager) => if auth.authorizes(manager) {
                Ok(())
            } else {
                Err(Error::Unauthorized)
            },
        }
    }

    /// Whether `auth` carries the issuance manager's authorization, and if
    /// not, why not.
    pub fn can_add_deployed_tokens(&self, auth: &Auth) -> (outcome: Result<(), Error>)
        ensures
            outcome == self@.issuance_management_gate(*auth),
    {
        match self.issuance_management {
            None => Err(Error::IssuanceManagementNotSet),
            Some(manager) => if auth.authorizes(manager) {
                Ok(())
            } else {
                Err(Error::Unauthorized)
            },
        }
    }

    /// Records `admin` as the owner of `campaign`, on the campaign manager's
    /// authority.
    pub fn set_campaign_admin(
        &mut self,
        auth: &Auth,
        campaign: Address,
        admin: Address,
    ) -> (outcome: Result<(), Error>)
        requires
            old(self)@.wf(),
        ensures
            final(self)@.wf(),
            settles(
                old(self)@.set_campaign_admin(*auth, campaign, admin),
                old(self)@,
                outcome,
                final(self)@,
            ),
    {
        self.can_set_campaign_admin(auth)?;
        let ghost next = old(self)@.set_campaign_admin(*auth, campaign, admin).unwrap();
        self.campaign_admins.insert(campaign, admin);
        assert(self@ =~= next);
        Ok(())
    }

    /// Appends `token_address` to the deployed tokens, on the issuance
    /// manager's authority.
    pub fn add_deployed_tokens(&mut self, auth: &Auth, token_address: Address) -> (outcome: Result<
        (),
        Error,
    >)
        requires
            old(self)@.wf(),
        ensures
            final(self)@.wf(),
            settles(
                old(self)@.add_deployed_tokens(*auth, token_address),
                old(self)@,
                outcome,
                final(self)@,
            ),
    {
        self.can_add_deployed_tokens(auth)?;
        let ghost next = old(self)@.add_deployed_tokens(*auth, token_address).unwrap();
        self.tokens.push(token_address);
        assert(self@ =~= next);
        Ok(())
    }

    /// The profile of `merchant_addr`, if it has registered.
    pub fn get_merchant_info(&self, merchant_addr: Address) -> (found: Option<&MerchantInfo>)
        requires
            self@.wf(),
        ensures
            found.is_some() == self@.registered(merchant_addr),
            found matches Some(info) ==> *info == value_of(self@.merchants, merchant_addr),
    {
        self.merchants.get(merchant_addr)
    }

    /// The merchants that wait for verification.
    pub fn get_unverified_merchants(&self) -> (list: &Vec<Address>)
        ensures
            list@ == self@.unverified,
    {
        &self.unverified
    }

    /// The verified merchants.
    pub fn get_verified_merchants(&self) -> (list: &Vec<Address>)
        ensures
            list@ == self@.verified,
    {
        &self.verified
    }

    /// The owner of `campaign`.
    pub fn get_campaign_admin(&self, campaign: Address) -> (found: Result<Address, Error>)
        requires
            self@.wf(),
        ensures
            found == if has_key(self@.campaign_admins, campaign) {
                Ok::<Address, Error>(value_of(self@.campaign_admins, campaign))
            } else {
                Err::<Address, Error>(Error::ContractDoesNotExist)
            },
    {
        match self.campaign_admins.get(campaign) {
            Some(admin) => Ok(*admin),
            None => Err(Error::ContractDoesNotExist),
        }
    }

    /// The super admin.
    pub fn get_super_admin(&self) -> (found: Result<Address, Error>)
        ensures
            found == match self@.super_admin {
                Some(admin) => Ok::<Address, Error>(admin),
                None => Err::<Address, Error>(Error::SuperAdminNotSet),
            },
    {
        match self.super_admin {
            Some(admin) => Ok(admin),
            None => Err(Error::SuperAdminNotSet),
        }
    }

    /// The deployed tokens.
    pub fn get_available_tokens(&self) -> (list: &Vec<Address>)
        ensures
            list@ == self@.tokens,
    {
        &self.tokens
    }

    /// The campaign manager's address.
    pub fn get_campaign_management(&self) -> (found: Result<Address, Error>)
        ensures
            found == match self@.campaign_management {
                Some(address) => Ok::<Address, Error>(address),
                None => Err::<Address, Error>(Error::CampaignManagementNotSet),
            },
    {
        match self.campaign_management {
            Some(address) => Ok(address),
            None => Err(Error::CampaignManagementNotSet),
        }
    }

    /// The issuance manager's address.
    pub fn get_issuance_management(&self) -> (found: Result<Address, Error>)
        ensures
            found == match self@.issuance_management {
                Some(address) => Ok::<Address, Error>(address),
                None => Err::<Address, Error>(Error::IssuanceManagementNotSet),
            },
    {
        match self.issuance_management {
            Some(address) => Ok(address),
            None => Err(Error::IssuanceManagementNotSet),
        }
    }

    /// Whether the registry has been initialized.
    pub fn has_administrator(&self) -> (set: bool)
        ensures
            set == self@.super_admin.is_some(),
    {
        self.super_admin.is_some()
    }
}

} // verus!
