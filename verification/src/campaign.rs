use crate::address::{Address, Auth};
use crate::collections::{
    contains_address, copy_addresses, distinct, distinct_keys, has_key, is_distinct, key_index,
    lemma_push_address, lemma_put, lookup, put, texts, value_of, AddressMap, NameMap,
};
use crate::error::{settles, verdict, Error};
use crate::localcoin::{balance_in, LocalCoin};
use vstd::prelude::*;

verus! {

/// The identity and metadata of a campaign, bound once when it is created.
#[derive(Clone, Debug, PartialEq, Eq)]
pub struct CampaignInfo {
    pub name: String,
    pub description: String,
    /// The declared capacity: how many recipients the campaign is meant for.
    pub no_of_recipients: u32,
    pub token_address: Address,
    /// The token's display name at the time the campaign was created.
    pub token_name: String,
    pub creator: Address,
    pub location: String,
}

impl CampaignInfo {
    /// A copy of the metadata.
    pub fn duplicate(&self) -> (copy: CampaignInfo)
        ensures
            copy == *self,
    {
        CampaignInfo {
            name: self.name.clone(),
            description: self.description.clone(),
            no_of_recipients: self.no_of_recipients,
            token_address: self.token_address,
            token_name: self.token_name.clone(),
            creator: self.creator,
            location: self.location.clone(),
        }
    }
}

/// What a campaign publishes when it changes.
#[derive(Clone, Debug, PartialEq, Eq)]
pub enum CampaignEvent {
    InfoSet { creator: Address, info: CampaignInfo },
    Joined { username: String, recipient: Address },
    RecipientVerified { recipient: Address },
    TokensTransferred { to: Address, amount: i128 },
}

/// The events that tell of the verification of `recipients`, one for each, in
/// their order.
pub open spec fn verifications(recipients: Seq<Address>) -> Seq<CampaignEvent> {
    Seq::new(
        recipients.len(),
        |i: int| CampaignEvent::RecipientVerified { recipient: recipients[i] },
    )
}

/// One funded donation drive: who owns it, which token it hands out, who has
/// joined, who is verified, what each recipient has received so far, and what
/// the campaign has published.
pub struct Campaign {
    owner: Option<Address>,
    token_address: Option<Address>,
    campaign_management: Option<Address>,
    info: Option<CampaignInfo>,
    is_ended: bool,
    recipients: NameMap<(bool, Address)>,
    verified: Vec<Address>,
    received: AddressMap<i128>,
    events: Vec<CampaignEvent>,
}

/// The state of a campaign as contracts speak of it.
#[verifier::ext_equal]
pub struct CampaignView {
    pub owner: Option<Address>,
    pub token_address: Option<Address>,
    pub campaign_management: Option<Address>,
    pub info: Option<CampaignInfo>,
    pub is_ended: bool,
    /// For every username that has joined: whether it is verified, and the
    /// address that joined under it.
    pub recipients: Seq<(Seq<char>, (bool, Address))>,
    /// The verified recipients, in the order of their verification.
    pub verified: Seq<Address>,
    /// The running total that each recipient has received.
    pub received: Seq<(Address, i128)>,
    /// The events published so far, in their order.
    pub events: Seq<CampaignEvent>,
}

/// The consistency of the roster: a username joins once, a recipient is
/// verified once, and a username that is marked verified has its recipient in
/// the verified list.
pub open spec fn roster_wf(
    recipients: Seq<(Seq<char>, (bool, Address))>,
    verified: Seq<Address>,
) -> bool {
    &&& distinct_keys(recipients)
    &&& distinct(verified)
    &&& forall|i: int|
        0 <= i < recipients.len() && (#[trigger] recipients[i]).1.0 ==> verified.contains(
            recipients[i].1.1,
        )
}

/// Verifying one username: it must have joined, and its recipient must not
/// be verified yet.
pub open spec fn verify_one(
    recipients: Seq<(Seq<char>, (bool, Address))>,
    verified: Seq<Address>,
    username: Seq<char>,
) -> Result<(Seq<(Seq<char>, (bool, Address))>, Seq<Address>), Error> {
    if !has_key(recipients, username) {
        Err(Error::UsernameNotJoined)
    } else {
        let recipient = value_of(recipients, username).1;
        if verified.contains(recipient) {
            Err(Error::RecipientAlreadyVerified)
        } else {
            Ok((put(recipients, username, (true, recipient)), verified.push(recipient)))
        }
    }
}

/// Verifying a batch: the usernames are verified one after the other, each
/// on the roster that its predecessors left, and the first refusal is the
/// batch's.
pub open spec fn verify_each(
    recipients: Seq<(Seq<char>, (bool, Address))>,
    verified: Seq<Address>,
    usernames: Seq<Seq<char>>,
) -> Result<(Seq<(Seq<char>, (bool, Address))>, Seq<Address>), Error>
    decreases usernames.len(),
{
    if usernames.len() == 0 {
        Ok((recipients, verified))
    } else {
        match verify_one(recipients, verified, usernames[0]) {
            Err(e) => Err(e),
            Ok(roster) => verify_each(roster.0, roster.1, usernames.skip(1)),
        }
    }
}

/// Verifying one more username keeps the roster consistent, keeps every
/// verified recipient verified, and adds exactly one.
pub proof fn lemma_verify_one(
    recipients: Seq<(Seq<char>, (bool, Address))>,
    verified: Seq<Address>,
    username: Seq<char>,
)
    requires
        roster_wf(recipients, verified),
    ensures
        verify_one(recipients, verified, username) matches Ok(roster) ==> {
            &&& roster_wf(roster.0, roster.1)
            &&& roster.1.len() == verified.len() + 1
            &&& forall|a: Address| verified.contains(a) ==> roster.1.contains(a)
        },
{
    if let Ok(roster) = verify_one(recipients, verified, username) {
        let recipient = value_of(recipients, username).1;
        let p = key_index(recipients, username);
        lemma_put(recipients, username, (true, recipient));
        lemma_push_address(verified, recipient);
        assert forall|i: int| 0 <= i < roster.0.len() && (#[trigger] roster.0[i]).1.0 implies roster.1.contains(
            roster.0[i].1.1,
        ) by {
            if i != p {
                assert(roster.0[i] == recipients[i]);
                assert(verified.contains(recipients[i].1.1));
            }
        }
    }
}

impl CampaignView {
    /// The campaign's invariant: the owner, the token, the campaign manager
    /// and the metadata are bound together, the roster is consistent, and
    /// only verified recipients have received anything.
    pub open spec fn wf(self) -> bool {
        &&& self.owner.is_some() == self.info.is_some()
        &&& self.owner.is_some() == self.token_address.is_some()
        &&& self.owner.is_some() == self.campaign_management.is_some()
        &&& roster_wf(self.recipients, self.verified)
        &&& distinct_keys(self.received)
        &&& forall|a: Address| #[trigger] has_key(self.received, a) ==> self.verified.contains(a)
    }

    /// What `recipient` has received from the campaign so far.
    pub open spec fn amount_received(self, recipient: Address) -> int {
        balance_in(self.received, recipient)
    }

    /// The state of a campaign that nobody has touched yet.
    pub open spec fn blank() -> CampaignView {
        CampaignView {
            owner: None,
            token_address: None,
            campaign_management: None,
            info: None,
            is_ended: false,
            recipients: Seq::empty(),
            verified: Seq::empty(),
            received: Seq::empty(),
            events: Seq::empty(),
        }
    }

    /// `set_campaign_info`: binds the campaign's identity and metadata, once,
    /// opens the campaign and publishes the binding.
    pub open spec fn set_campaign_info(
        self,
        info: CampaignInfo,
        campaign_management: Address,
    ) -> Result<CampaignView, Error> {
        if self.owner.is_some() {
            Err(Error::CampaignInfoAlreadySet)
        } else {
            Ok(
                CampaignView {
                    owner: Some(info.creator),
                    token_address: Some(info.token_address),
                    campaign_management: Some(campaign_management),
                    info: Some(info),
                    is_ended: false,
                    events: self.events.push(
                        CampaignEvent::InfoSet { creator: info.creator, info },
                    ),
                    ..self
                },
            )
        }
    }

    /// What an entry point that only the campaign manager may call answers
    /// before it does anything else.
    pub open spec fn management_gate(self, auth: Auth) -> Result<(), Error> {
        if self.campaign_management.is_none() {
            Err(Error::CampaignManagementNotSet)
        } else if !auth.covers(self.campaign_management.unwrap()) {
            Err(Error::Unauthorized)
        } else {
            Ok(())
        }
    }

    /// `set_campaign_end_status`: the campaign manager ends or reopens the
    /// campaign.
    pub open spec fn set_campaign_end_status(self, auth: Auth, status: bool) -> Result<
        CampaignView,
        Error,
    > {
        match self.management_gate(auth) {
            Err(e) => Err(e),
            Ok(_) => Ok(CampaignView { is_ended: status, ..self }),
        }
    }

    /// `join_campaign`: a recipient joins under a username that nobody has
    /// used before, and the campaign publishes the joining.
    pub open spec fn join_campaign(
        self,
        auth: Auth,
        username: String,
        recipient: Address,
    ) -> Result<CampaignView, Error> {
        if !auth.covers(recipient) {
            Err(Error::Unauthorized)
        } else if has_key(self.recipients, username@) {
            Err(Error::CampaignAlreadyJoined)
        } else {
            Ok(
                CampaignView {
                    recipients: put(self.recipients, username@, (false, recipient)),
                    events: self.events.push(CampaignEvent::Joined { username, recipient }),
                    ..self
                },
            )
        }
    }

    /// `verify_recipients`: the owner verifies a batch of usernames, all of
    /// them or none, and the campaign publishes the verification of each
    /// recipient.
    pub open spec fn verify_recipients(self, auth: Auth, usernames: Seq<Seq<char>>) -> Result<
        CampaignView,
        Error,
    > {
        if self.owner.is_none() {
            Err(Error::OwnerNotSet)
        } else if !auth.covers(self.owner.unwrap()) {
            Err(Error::Unauthorized)
        } else {
            match verify_each(self.recipients, self.verified, usernames) {
                Err(e) => Err(e),
                Ok(roster) => Ok(
                    CampaignView {
                        recipients: roster.0,
                        verified: roster.1,
                        events: self.events + verifications(
                            roster.1.subrange(self.verified.len() as int, roster.1.len() as int),
                        ),
                        ..self
                    },
                ),
            }
        }
    }

    /// `transfer_tokens_to_recipient`: the owner books `amount` for a
    /// verified recipient, and the campaign publishes the transfer. The
    /// amount itself is not examined here: the token refuses a negative one
    /// when the tokens are moved.
    pub open spec fn transfer_tokens_to_recipient(
        self,
        auth: Auth,
        to: Address,
        amount: i128,
    ) -> Result<CampaignView, Error> {
        if self.owner.is_none() {
            Err(Error::OwnerNotSet)
        } else if !auth.covers(self.owner.unwrap()) {
            Err(Error::Unauthorized)
        } else if !self.verified.contains(to) {
            Err(Error::RecipientNotVerified)
        } else if !(i128::MIN <= self.amount_received(to) + amount <= i128::MAX) {
            Err(Error::ArithmeticOverflow)
        } else {
            Ok(
                CampaignView {
                    received: put(self.received, to, (self.amount_received(to) + amount) as i128),
                    events: self.events.push(CampaignEvent::TokensTransferred { to, amount }),
                    ..self
                },
            )
        }
    }

    /// Whether as many recipients are verified as the campaign was declared
    /// for. Nothing enforces the capacity: a caller that wants it kept asks
    /// this first.
    pub open spec fn recipient_limit_exceeded(self) -> bool {
        self.verified.len() >= self.info.unwrap().no_of_recipients
    }
}

/// A campaign's identity is bound once: a second `set_campaign_info` is
/// refused as "already set" and leaves the campaign as the first one left
/// it.
pub proof fn lemma_second_set_campaign_info_is_refused(
    campaign: CampaignView,
    first: CampaignInfo,
    first_management: Address,
    second: CampaignInfo,
    second_management: Address,
    outcome: Result<(), Error>,
    after: CampaignView,
)
    requires
        campaign.set_campaign_info(first, first_management) matches Ok(once) && settles(
            once.set_campaign_info(second, second_management),
            once,
            outcome,
            after,
        ),
    ensures
        outcome == Err::<(), Error>(Error::CampaignInfoAlreadySet),
        after == campaign.set_campaign_info(first, first_management).unwrap(),
{
}

/// Once bound, a campaign's identity stays as it is: no entry point changes
/// the owner, the token, the campaign manager or the metadata of an
/// initialized campaign.
pub proof fn lemma_identity_is_immutable(
    campaign: CampaignView,
    auth: Auth,
    info: CampaignInfo,
    management: Address,
    status: bool,
    username: String,
    recipient: Address,
    usernames: Seq<Seq<char>>,
    amount: i128,
)
    requires
        campaign.owner.is_some(),
    ensures
        campaign.set_campaign_info(info, management).is_err(),
        campaign.set_campaign_end_status(auth, status) matches Ok(next) ==> same_identity(
            campaign,
            next,
        ),
        campaign.join_campaign(auth, username, recipient) matches Ok(next) ==> same_identity(
            campaign,
            next,
        ),
        campaign.verify_recipients(auth, usernames) matches Ok(next) ==> same_identity(
            campaign,
            next,
        ),
        campaign.transfer_tokens_to_recipient(auth, recipient, amount) matches Ok(next)
            ==> same_identity(campaign, next),
{
}

/// Two states of a campaign with the same owner, token, campaign manager and
/// metadata.
pub open spec fn same_identity(before: CampaignView, after: CampaignView) -> bool {
    &&& after.owner == before.owner
    &&& after.token_address == before.token_address
    &&& after.campaign_management == before.campaign_management
    &&& after.info == before.info
}

/// On a campaign, a transfer to a recipient that is not verified is refused
/// whatever the amount is, zero and negative amounts included.
pub proof fn lemma_unverified_recipient_gets_nothing(
    campaign: CampaignView,
    auth: Auth,
    to: Address,
    amount: i128,
)
    requires
        !campaign.verified.contains(to),
    ensures
        campaign.transfer_tokens_to_recipient(auth, to, amount).is_err(),
{
}

impl View for Campaign {
    type V = CampaignView;

    closed spec fn view(&self) -> CampaignView {
        CampaignView {
            owner: self.owner,
            token_address: self.token_address,
            campaign_management: self.campaign_management,
            info: self.info,
            is_ended: self.is_ended,
            recipients: self.recipients@,
            verified: self.verified@,
            received: self.received@,
            events: self.events@,
        }
    }
}

impl Campaign {
    /// A campaign that nobody has touched yet.
    pub fn new() -> (campaign: Campaign)
        ensures
            campaign@ == CampaignView::blank(),
            campaign@.wf(),
    {
        let campaign = Campaign {
            owner: None,
            token_address: None,
            campaign_management: None,
            info: None,
            is_ended: false,
            recipients: NameMap::new(),
            verified: Vec::new(),
            received: AddressMap::new(),
            events: Vec::new(),
        };
        assert(campaign@ =~= CampaignView::blank());
        campaign
    }

    /// The campaign in the state that the parts describe and with nothing
    /// published yet, provided that the parts describe a well-formed
    /// campaign.
    pub fn restore(
        owner: Option<Address>,
        token_address: Option<Address>,
        campaign_management: Option<Address>,
        info: Option<CampaignInfo>,
        is_ended: bool,
        recipients: NameMap<(bool, Address)>,
        verified: Vec<Address>,
        received: AddressMap<i128>,
    ) -> (made: Option<Campaign>)
        requires
            recipients.wf(),
            received.wf(),
        ensures
            made.is_some() == (CampaignView {
                owner,
                token_address,
                campaign_management,
                info,
                is_ended,
                recipients: recipients@,
                verified: verified@,
                received: received@,
                events: Seq::empty(),
            }).wf(),
            made matches Some(campaign) ==> campaign@ == (CampaignView {
                owner,
                token_address,
                campaign_management,
                info,
                is_ended,
                recipients: recipients@,
                verified: verified@,
                received: received@,
                events: Seq::empty(),
            }),
    {
        if owner.is_some() != info.is_some() || owner.is_some() != token_address.is_some()
            || owner.is_some() != campaign_management.is_some() {
            return None;
        }
        if !is_distinct(&verified) {
            return None;
        }
        let mut i: usize = 0;
        while i < recipients.len()
            invariant
                i <= recipients@.len(),
                forall|j: int|
                    0 <= j < i && (#[trigger] recipients@[j]).1.0 ==> verified@.contains(
                        recipients@[j].1.1,
                    ),
            decreases recipients@.len() - i,
        {
            let status = *recipients.entry(i).1;
            if status.0 && !contains_address(&verified, status.1) {
                return None;
            }
            i = i + 1;
        }
        let mut k: usize = 0;
        while k < received.len()
            invariant
                k <= received@.len(),
                forall|j: int| 0 <= j < k ==> verified@.contains((#[trigger] received@[j]).0),
            decreases received@.len() - k,
        {
            let recipient = received.entry(k).0;
            if !contains_address(&verified, recipient) {
                assert(has_key(received@, received@[k as int].0));
                return None;
            }
            k = k + 1;
        }
        proof {
            assert forall|a: Address| #[trigger] has_key(received@, a) implies verified@.contains(
                a,
            ) by {
                let j = key_index(received@, a);
                assert(received@[j].0 == a);
            }
        }
        let campaign = Campaign {
            owner,
            token_address,
            campaign_management,
            info,
            is_ended,
            recipients,
            verified,
            received,
            events: Vec::new(),
        };
        assert(campaign@ =~= (CampaignView {
            owner,
            token_address,
            campaign_management,
            info,
            is_ended,
            recipients: recipients@,
            verified: verified@,
            received: received@,
            events: Seq::empty(),
        }));
        Some(campaign)
    }

    /// The events published so far, in their order.
    pub fn events(&self) -> (events: &Vec<CampaignEvent>)
        ensures
            events@ == self@.events,
    {
        &self.events
    }

    /// The running total that each recipient has received.
    pub fn received(&self) -> (received: &AddressMap<i128>)
        ensures
            received@ == self@.received,
            self@.wf() ==> received.wf(),
    {
        &self.received
    }

    /// Binds the campaign's identity and metadata. `token_name` is the
    /// display name that the token reports at this time.
    pub fn set_campaign_info(
        &mut self,
        name: String,
        description: String,
        no_of_recipients: u32,
        token_address: Address,
        token_name: String,
        creator: Address,
        campaign_management: Address,
        location: String,
    ) -> (outcome: Result<(), Error>)
        requires
            old(self)@.wf(),
        ensures
            final(self)@.wf(),
            settles(
                old(self)@.set_campaign_info(
                    CampaignInfo {
                        name,
                        description,
                        no_of_recipients,
                        token_address,
                        token_name,
                        creator,
                        location,
                    },
                    campaign_management,
                ),
                old(self)@,
                outcome,
                final(self)@,
            ),
    {
        if self.has_administrator() {
            return Err(Error::CampaignInfoAlreadySet);
        }
        let info = CampaignInfo {
            name,
            description,
            no_of_recipients,
            token_address,
            token_name,
            creator,
            location,
        };
        let ghost next = old(self)@.set_campaign_info(info, campaign_management).unwrap();
        self.owner = Some(creator);
        self.token_address = Some(token_address);
        self.campaign_management = Some(campaign_management);
        self.is_ended = false;
        self.events.push(CampaignEvent::InfoSet { creator, info: info.duplicate() });
        self.info = Some(info);
        assert(self@ =~= next);
        Ok(())
    }

    /// Ends or reopens the campaign, on the campaign manager's authority.
    pub fn set_campaign_end_status(&mut self, auth: &Auth, status: bool) -> (outcome: Result<
        (),
        Error,
    >)
        requires
            old(self)@.wf(),
        ensures
            final(self)@.wf(),
            settles(
                old(self)@.set_campaign_end_status(*auth, status),
                old(self)@,
                outcome,
                final(self)@,
            ),
    {
        self.can_set_campaign_end_status(auth)?;
        self.is_ended = status;
        assert(self@ =~= old(self)@.set_campaign_end_status(*auth, status).unwrap());
        Ok(())
    }

    /// Lets `recipient` join under `username`.
    pub fn join_campaign(&mut self, auth: &Auth, username: String, recipient: Address) -> (outcome:
        Result<(), Error>)
        requires
            old(self)@.wf(),
        ensures
            final(self)@.wf(),
            settles(
                old(self)@.join_campaign(*auth, username, recipient),
                old(self)@,
                outcome,
                final(self)@,
            ),
    {
        if !auth.authorizes(recipient) {
            return Err(Error::Unauthorized);
        }
        if self.recipients.contains_key(&username) {
            return Err(Error::CampaignAlreadyJoined);
        }
        let ghost next = old(self)@.join_campaign(*auth, username, recipient).unwrap();
        proof {
            lemma_put(self@.recipients, username@, (false, recipient));
            assert forall|i: int|
                0 <= i < next.recipients.len() && (#[trigger] next.recipients[i]).1.0 implies next.verified.contains(
                next.recipients[i].1.1,
            ) by {
                assert(i < self@.recipients.len());
                assert(next.recipients[i] == self@.recipients[i]);
            }
        }
        self.events.push(CampaignEvent::Joined { username: username.clone(), recipient });
        self.recipients.insert(username, (false, recipient));
        assert(self@ =~= next);
        Ok(())
    }

    /// Verifies the recipients that joined under `usernames`, all of them or
    /// none.
    pub fn verify_recipients(&mut self, auth: &Auth, usernames: &Vec<String>) -> (outcome: Result<
        (),
        Error,
    >)
        requires
            old(self)@.wf(),
        ensures
            final(self)@.wf(),
            settles(
                old(self)@.verify_recipients(*auth, texts(usernames@)),
                old(self)@,
                outcome,
                final(self)@,
            ),
    {
        let owner = match self.owner {
            Some(owner) => owner,
            None => {
                return Err(Error::OwnerNotSet);
            },
        };
        if !auth.authorizes(owner) {
            return Err(Error::Unauthorized);
        }
        let ghost names = texts(usernames@);
        let ghost before = self@;
        let mut roster = self.recipients.duplicate();
        let mut listed = copy_addresses(&self.verified);
        let mut i: usize = 0;
        assert(names.skip(0) =~= names);
        while i < usernames.len()
            invariant
                i <= usernames.len(),
                names == texts(usernames@),
                before == self@,
                before == old(self)@,
                before.wf(),
                before.owner.is_some(),
                auth.covers(before.owner.unwrap()),
                roster_wf(roster@, listed@),
                listed@.len() >= before.verified.len(),
                forall|a: Address| before.verified.contains(a) ==> listed@.contains(a),
                verify_each(before.recipients, before.verified, names) == verify_each(
                    roster@,
                    listed@,
                    names.skip(i as int),
                ),
            decreases usernames.len() - i,
        {
            let username = &usernames[i];
            proof {
                assert(names.skip(i as int)[0] == username@);
                assert(names.skip(i as int).skip(1) =~= names.skip(i + 1));
                lemma_verify_one(roster@, listed@, username@);
            }
            let recipient = match roster.get(username) {
                None => {
                    return Err(Error::UsernameNotJoined);
                },
                Some(status) => status.1,
            };
            if contains_address(&listed, recipient) {
                return Err(Error::RecipientAlreadyVerified);
            }
            roster.insert(username.clone(), (true, recipient));
            listed.push(recipient);
            i = i + 1;
        }
        assert(names.skip(i as int).len() == 0);
        let ghost next = before.verify_recipients(*auth, names).unwrap();
        let known = self.verified.len();
        self.recipients = roster;
        self.verified = listed;
        let mut k: usize = known;
        assert(verifications(self.verified@.subrange(known as int, known as int)) =~= Seq::<
            CampaignEvent,
        >::empty());
        while k < self.verified.len()
            invariant
                known <= k <= self.verified@.len(),
                self.verified@ == next.verified,
                self.recipients@ == next.recipients,
                self.owner == old(self).owner,
                self.token_address == old(self).token_address,
                self.campaign_management == old(self).campaign_management,
                self.info == old(self).info,
                self.is_ended == old(self).is_ended,
                self.received == old(self).received,
                self.events@ == before.events + verifications(
                    self.verified@.subrange(known as int, k as int),
                ),
            decreases self.verified@.len() - k,
        {
            let recipient = self.verified[k];
            self.events.push(CampaignEvent::RecipientVerified { recipient });
            assert(verifications(self.verified@.subrange(known as int, k + 1)) =~= verifications(
                self.verified@.subrange(known as int, k as int),
            ).push(CampaignEvent::RecipientVerified { recipient }));
            k = k + 1;
        }
        assert(self@ =~= next);
        Ok(())
    }

    /// Whether `auth` carries the campaign manager's authorization, and if
    /// not, why not.
    pub fn can_set_campaign_end_status(&self, auth: &Auth) -> (outcome: Result<(), Error>)
        ensures
            outcome == self@.management_gate(*auth),
    {
        match self.campaign_management {
            None => Err(Error::CampaignManagementNotSet),
            Some(manager) => if auth.authorizes(manager) {
                Ok(())
            } else {
                Err(Error::Unauthorized)
            },
        }
    }

    /// Whether `transfer_tokens_to_recipient` would succeed, and if not, why
    /// not.
    pub fn can_transfer_tokens_to_recipient(
        &self,
        auth: &Auth,
        to: Address,
        amount: i128,
    ) -> (outcome: Result<(), Error>)
        requires
            self@.wf(),
        ensures
            outcome == verdict(self@.transfer_tokens_to_recipient(*auth, to, amount)),
    {
        let owner = match self.owner {
            Some(owner) => owner,
            None => {
                return Err(Error::OwnerNotSet);
            },
        };
        if !auth.authorizes(owner) {
            return Err(Error::Unauthorized);
        }
        if !contains_address(&self.verified, to) {
            return Err(Error::RecipientNotVerified);
        }
        match self.get_amount_received(to).checked_add(amount) {
            Some(total) => Ok(()),
            None => Err(Error::ArithmeticOverflow),
        }
    }

    /// Books `amount` for the verified recipient `to`, on the owner's
    /// authority. Moving the tokens is the caller's part.
    pub fn transfer_tokens_to_recipient(
        &mut self,
        auth: &Auth,
        to: Address,
        amount: i128,
    ) -> (outcome: Result<(), Error>)
        requires
            old(self)@.wf(),
        ensures
            final(self)@.wf(),
            settles(
                old(self)@.transfer_tokens_to_recipient(*auth, to, amount),
                old(self)@,
                outcome,
                final(self)@,
            ),
    {
        self.can_transfer_tokens_to_recipient(auth, to, amount)?;
        let total = self.get_amount_received(to) + amount;
        let ghost next = old(self)@.transfer_tokens_to_recipient(*auth, to, amount).unwrap();
        proof {
            lemma_put(self@.received, to, total);
            assert forall|a: Address| #[trigger] has_key(next.received, a) implies next.verified.contains(
                a,
            ) by {
                if a != to {
                    assert(lookup(next.received, a) == lookup(self@.received, a));
                }
            }
        }
        self.received.insert(to, total);
        self.events.push(CampaignEvent::TokensTransferred { to, amount });
        assert(self@ =~= next);
        Ok(())
    }

    /// Whether as many recipients are verified as the campaign was declared
    /// for.
    pub fn recipient_limit_exceeded(&self) -> (exceeded: bool)
        requires
            self@.info.is_some(),
        ensures
            exceeded == self@.recipient_limit_exceeded(),
    {
        match &self.info {
            Some(info) => self.verified.len() >= info.no_of_recipients as usize,
            None => false,
        }
    }

    /// Every username that has joined, with its verification mark and the
    /// address that joined under it.
    pub fn get_recipients_status(&self) -> (roster: &NameMap<(bool, Address)>)
        ensures
            roster@ == self@.recipients,
    {
        &self.recipients
    }

    /// The verified recipients.
    pub fn get_verified_recipients(&self) -> (list: &Vec<Address>)
        ensures
            list@ == self@.verified,
    {
        &self.verified
    }

    /// The token that the campaign hands out.
    pub fn get_token_address(&self) -> (found: Result<Address, Error>)
        ensures
            found == match self@.token_address {
                Some(token) => Ok::<Address, Error>(token),
                None => Err::<Address, Error>(Error::TokenAddressNotSet),
            },
    {
        match self.token_address {
            Some(token) => Ok(token),
            None => Err(Error::TokenAddressNotSet),
        }
    }

    /// The campaign manager that created the campaign.
    pub fn get_campaign_management(&self) -> (found: Result<Address, Error>)
        ensures
            found == match self@.campaign_management {
                Some(manager) => Ok::<Address, Error>(manager),
                None => Err::<Address, Error>(Error::CampaignManagementNotSet),
            },
    {
        match self.campaign_management {
            Some(manager) => Ok(manager),
            None => Err(Error::CampaignManagementNotSet),
        }
    }

    /// The campaign's metadata, once it is bound.
    pub fn get_campaign_info(&self) -> (found: Option<&CampaignInfo>)
        ensures
            found.is_some() == self@.info.is_some(),
            found matches Some(info) ==> *info == self@.info.unwrap(),
    {
        self.info.as_ref()
    }

    /// What the campaign holds of its token, read from the token's ledger.
    /// `address` is the campaign's own address and `token` the token that
    /// lives at the campaign's token address.
    pub fn get_campaign_balance(&self, address: Address, token: &LocalCoin) -> (found: Result<
        i128,
        Error,
    >)
        requires
            token@.wf(),
        ensures
            found == if self@.token_address.is_some() {
                Ok::<i128, Error>(token@.held(address))
            } else {
                Err::<i128, Error>(Error::TokenAddressNotSet)
            },
    {
        if self.token_address.is_none() {
            return Err(Error::TokenAddressNotSet);
        }
        Ok(token.balance_of(address))
    }

    /// What `recipient` has received from the campaign so far.
    pub fn get_amount_received(&self, recipient: Address) -> (amount: i128)
        requires
            self@.wf(),
        ensures
            amount == self@.amount_received(recipient),
    {
        match self.received.get(recipient) {
            Some(amount) => *amount,
            None => 0,
        }
    }

    /// The campaign's owner.
    pub fn get_owner(&self) -> (found: Result<Address, Error>)
        ensures
            found == match self@.owner {
                Some(owner) => Ok::<Address, Error>(owner),
                None => Err::<Address, Error>(Error::OwnerNotSet),
            },
    {
        match self.owner {
            Some(owner) => Ok(owner),
            None => Err(Error::OwnerNotSet),
        }
    }

    /// Whether the campaign has been ended.
    pub fn is_ended(&self) -> (ended: bool)
        ensures
            ended == self@.is_ended,
    {
        self.is_ended
    }

    /// Whether the campaign's identity has been bound.
    pub fn has_administrator(&self) -> (set: bool)
        ensures
            set == self@.owner.is_some(),
    {
        self.owner.is_some()
    }
}

} // verus!
