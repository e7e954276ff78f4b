use crate::address::{Address, Auth};
use crate::collections::{
    distinct_keys, has_key, key_index, lemma_key_index_unique, lemma_put, lookup, put, value_of,
    contains_address, AddressMap,
};
use crate::error::{settles, verdict, Error};
use vstd::prelude::*;

verus! {

// ---------------------------------------------------------------------------
// Balances
// ---------------------------------------------------------------------------

/// What `who` holds: its recorded balance, or nothing where none is recorded.
pub open spec fn balance_in(balances: Seq<(Address, i128)>, who: Address) -> int {
    match lookup(balances, who) {
        Some(amount) => amount as int,
        None => 0,
    }
}

/// The sum of all recorded balances.
pub open spec fn sum_of(balances: Seq<(Address, i128)>) -> int
    decreases balances.len(),
{
    if balances.len() == 0 {
        0
    } else {
        sum_of(balances.drop_last()) + balances.last().1
    }
}

/// No recorded balance is negative.
pub open spec fn non_negative(balances: Seq<(Address, i128)>) -> bool {
    forall|i: int| 0 <= i < balances.len() ==> (#[trigger] balances[i]).1 >= 0
}

/// `balances` after `who` has received `amount`.
pub open spec fn credit(balances: Seq<(Address, i128)>, who: Address, amount: int) -> Seq<
    (Address, i128),
> {
    put(balances, who, (balance_in(balances, who) + amount) as i128)
}

/// `balances` after `who` has spent `amount`.
pub open spec fn debit(balances: Seq<(Address, i128)>, who: Address, amount: int) -> Seq<
    (Address, i128),
> {
    put(balances, who, (balance_in(balances, who) - amount) as i128)
}

proof fn lemma_sum_push(s: Seq<(Address, i128)>, e: (Address, i128))
    ensures
        sum_of(s.push(e)) == sum_of(s) + e.1,
{
    assert(s.push(e).drop_last() =~= s);
}

proof fn lemma_sum_update(s: Seq<(Address, i128)>, i: int, e: (Address, i128))
    requires
        0 <= i < s.len(),
    ensures
        sum_of(s.update(i, e)) == sum_of(s) - s[i].1 + e.1,
    decreases s.len(),
{
    let t = s.update(i, e);
    if i == s.len() - 1 {
        assert(t.drop_last() =~= s.drop_last());
    } else {
        assert(t.drop_last() =~= s.drop_last().update(i, e));
        lemma_sum_update(s.drop_last(), i, e);
    }
}

proof fn lemma_sum_bounds(s: Seq<(Address, i128)>, i: int)
    requires
        non_negative(s),
        0 <= i < s.len(),
    ensures
        0 <= s[i].1 <= sum_of(s),
    decreases s.len(),
{
    let d = s.drop_last();
    let n = s.len() - 1;
    assert(s[n].1 >= 0);
    assert(non_negative(d)) by {
        assert forall|j: int| 0 <= j < d.len() implies (#[trigger] d[j]).1 >= 0 by {
            assert(d[j] == s[j]);
        }
    }
    if d.len() == 0 {
        assert(sum_of(d) == 0);
    } else {
        lemma_sum_bounds(d, 0);
    }
    if i < n {
        lemma_sum_bounds(d, i);
        assert(d[i] == s[i]);
    }
}

/// Among non-negative balances, the first `n` add up to no more than all of
/// them.
pub proof fn lemma_sum_of_prefix(balances: Seq<(Address, i128)>, n: int)
    requires
        non_negative(balances),
        0 <= n <= balances.len(),
    ensures
        0 <= sum_of(balances.take(n)) <= sum_of(balances),
        non_negative(balances.take(n)),
    decreases balances.len() - n,
{
    let prefix = balances.take(n);
    assert forall|j: int| 0 <= j < prefix.len() implies (#[trigger] prefix[j]).1 >= 0 by {
        assert(prefix[j] == balances[j]);
    }
    if prefix.len() > 0 {
        lemma_sum_bounds(prefix, 0);
    } else {
        assert(sum_of(prefix) == 0);
    }
    if n == balances.len() {
        assert(prefix =~= balances);
    } else {
        lemma_sum_of_prefix(balances, n + 1);
        let longer = balances.take(n + 1);
        assert(longer.drop_last() =~= prefix);
        assert(longer.last() == balances[n]);
        assert(balances[n].1 >= 0);
    }
}

/// A sum of non-negative balances is itself non-negative, and it covers
/// every single balance.
pub proof fn lemma_balance_within_sum(balances: Seq<(Address, i128)>, who: Address)
    requires
        non_negative(balances),
    ensures
        0 <= balance_in(balances, who) <= sum_of(balances),
{
    if balances.len() == 0 {
        assert(!has_key(balances, who));
    } else {
        lemma_sum_bounds(balances, 0);
        if has_key(balances, who) {
            let i = key_index(balances, who);
            lemma_sum_bounds(balances, i);
        }
    }
}

/// Storing a new balance for `who` moves the sum by the difference, changes
/// what `who` holds and nothing else.
pub proof fn lemma_set_balance(balances: Seq<(Address, i128)>, who: Address, amount: i128)
    requires
        distinct_keys(balances),
        non_negative(balances),
        amount >= 0,
    ensures
        distinct_keys(put(balances, who, amount)),
        non_negative(put(balances, who, amount)),
        sum_of(put(balances, who, amount)) == sum_of(balances) - balance_in(balances, who) + amount,
        balance_in(put(balances, who, amount), who) == amount,
        forall|other: Address|
            other != who ==> balance_in(put(balances, who, amount), other) == balance_in(
                balances,
                other,
            ),
{
    lemma_put(balances, who, amount);
    let t = put(balances, who, amount);
    if has_key(balances, who) {
        let i = key_index(balances, who);
        lemma_sum_update(balances, i, (who, amount));
        assert forall|j: int| 0 <= j < t.len() implies (#[trigger] t[j]).1 >= 0 by {
            if j != i {
                assert(t[j] == balances[j]);
            }
        }
    } else {
        lemma_sum_push(balances, (who, amount));
        assert forall|j: int| 0 <= j < t.len() implies (#[trigger] t[j]).1 >= 0 by {
            if j < balances.len() {
                assert(t[j] == balances[j]);
            }
        }
    }
    assert forall|other: Address| other != who implies balance_in(t, other) == balance_in(
        balances,
        other,
    ) by {
        assert(lookup(t, other) == lookup(balances, other));
    }
}

/// Rejects a negative token amount.
pub fn check_nonnegative_amount(amount: i128) -> (outcome: Result<(), Error>)
    ensures
        amount >= 0 ==> outcome.is_ok(),
        amount < 0 ==> outcome == Err::<(), Error>(Error::NegativeAmount),
{
    if amount < 0 {
        Err(Error::NegativeAmount)
    } else {
        Ok(())
    }
}

/// What `who` holds; nothing where no balance is recorded.
pub fn read_balance(balances: &AddressMap<i128>, who: Address) -> (amount: i128)
    requires
        balances.wf(),
    ensures
        amount == balance_in(balances@, who),
{
    match balances.get(who) {
        Some(amount) => *amount,
        None => 0,
    }
}

/// Adds `amount` to what `who` holds.
pub fn receive_balance(balances: &mut AddressMap<i128>, who: Address, amount: i128)
    requires
        old(balances).wf(),
        i128::MIN <= balance_in(old(balances)@, who) + amount <= i128::MAX,
    ensures
        final(balances).wf(),
        final(balances)@ == credit(old(balances)@, who, amount as int),
{
    let held = read_balance(balances, who);
    balances.insert(who, held + amount);
}

/// Takes `amount` from what `who` holds, unless `who` holds less.
pub fn spend_balance(balances: &mut AddressMap<i128>, who: Address, amount: i128) -> (outcome:
    Result<(), Error>)
    requires
        old(balances).wf(),
        i128::MIN <= balance_in(old(balances)@, who) - amount <= i128::MAX,
    ensures
        final(balances).wf(),
        balance_in(old(balances)@, who) < amount ==> outcome == Err::<(), Error>(
            Error::InsufficientBalance,
        ) && final(balances)@ == old(balances)@,
        balance_in(old(balances)@, who) >= amount ==> outcome.is_ok() && final(balances)@ == debit(
            old(balances)@,
            who,
            amount as int,
        ),
{
    let held = read_balance(balances, who);
    if held < amount {
        return Err(Error::InsufficientBalance);
    }
    balances.insert(who, held - amount);
    Ok(())
}


// ---------------------------------------------------------------------------
// The token
// ---------------------------------------------------------------------------

/// A token's display data, fixed when the token is initialized.
#[derive(Clone, Debug, PartialEq, Eq)]
pub struct TokenMetadata {
    pub decimal: u32,
    pub name: String,
    pub symbol: String,
}

/// What a token publishes when it changes.
#[derive(Clone, Copy, Debug, PartialEq, Eq, Structural)]
pub enum TokenEvent {
    Mint { admin: Address, to: Address, amount: i128 },
    SetAdmin { admin: Address, new_admin: Address },
    Transfer { from: Address, to: Address, amount: i128 },
    Burn { from: Address, amount: i128 },
}

/// The ledger of one token: who may mint and burn, which issuance manager
/// scopes it, what every address holds, how much was minted and burned, and
/// what the token has published.
pub struct LocalCoin {
    admin: Option<Address>,
    issuance: Option<Address>,
    metadata: Option<TokenMetadata>,
    balances: AddressMap<i128>,
    total_supply: i128,
    total_burned: i128,
    events: Vec<TokenEvent>,
}

/// The state of a token as contracts speak of it.
#[verifier::ext_equal]
pub struct LocalCoinView {
    pub admin: Option<Address>,
    pub issuance: Option<Address>,
    pub metadata: Option<TokenMetadata>,
    /// The recorded balances, in the order in which their holders first
    /// received or spent.
    pub balances: Seq<(Address, i128)>,
    pub total_supply: int,
    pub total_burned: int,
    /// The events published so far, in their order.
    pub events: Seq<TokenEvent>,
}

impl LocalCoinView {
    /// The token's invariant: every holder has one balance, no balance is
    /// negative, the balances add up to the total supply, nothing negative
    /// was burned, and the administrator and the display data are set
    /// together.
    pub open spec fn wf(self) -> bool {
        &&& distinct_keys(self.balances)
        &&& non_negative(self.balances)
        &&& sum_of(self.balances) == self.total_supply
        &&& self.total_supply <= i128::MAX
        &&& 0 <= self.total_burned <= i128::MAX
        &&& self.admin.is_some() == self.metadata.is_some()
    }

    /// What `who` holds.
    pub open spec fn balance(self, who: Address) -> int {
        balance_in(self.balances, who)
    }

    /// What `who` holds, as the amount that the ledger stores.
    pub open spec fn held(self, who: Address) -> i128 {
        match lookup(self.balances, who) {
            Some(amount) => amount,
            None => 0,
        }
    }

    /// The state of a token that nobody has touched yet.
    pub open spec fn blank() -> LocalCoinView {
        LocalCoinView {
            admin: None,
            issuance: None,
            metadata: None,
            balances: Seq::empty(),
            total_supply: 0,
            total_burned: 0,
            events: Seq::empty(),
        }
    }

    /// `initialize`: refused on an initialized token and for a decimal count
    /// above 255; else binds the administrator and the display data.
    pub open spec fn initialize(
        self,
        admin: Address,
        decimal: u32,
        name: String,
        symbol: String,
    ) -> Result<LocalCoinView, Error> {
        if self.admin.is_some() {
            Err(Error::TokenAlreadyInitialized)
        } else if decimal > 255 {
            Err(Error::DecimalTooLarge)
        } else {
            Ok(
                LocalCoinView {
                    admin: Some(admin),
                    metadata: Some(TokenMetadata { decimal, name, symbol }),
                    ..self
                },
            )
        }
    }

    /// `mint`: the administrator credits `to` and the total supply, and the
    /// token publishes the mint.
    pub open spec fn mint(self, auth: Auth, to: Address, amount: i128) -> Result<
        LocalCoinView,
        Error,
    > {
        if amount < 0 {
            Err(Error::NegativeAmount)
        } else if self.admin.is_none() {
            Err(Error::TokenNotInitialized)
        } else if !auth.covers(self.admin.unwrap()) {
            Err(Error::Unauthorized)
        } else if self.total_supply + amount > i128::MAX {
            Err(Error::ArithmeticOverflow)
        } else {
            Ok(
                LocalCoinView {
                    balances: credit(self.balances, to, amount as int),
                    total_supply: self.total_supply + amount,
                    events: self.events.push(
                        TokenEvent::Mint { admin: self.admin.unwrap(), to, amount },
                    ),
                    ..self
                },
            )
        }
    }

    /// `burn`: the administrator takes `amount` from `from`, out of the total
    /// supply and into the total burned, and the token publishes the burn.
    pub open spec fn burn(self, auth: Auth, from: Address, amount: i128) -> Result<
        LocalCoinView,
        Error,
    > {
        if self.admin.is_none() {
            Err(Error::TokenNotInitialized)
        } else if !auth.covers(self.admin.unwrap()) {
            Err(Error::Unauthorized)
        } else if amount < 0 {
            Err(Error::NegativeAmount)
        } else if self.balance(from) < amount {
            Err(Error::InsufficientBalance)
        } else if self.total_burned + amount > i128::MAX {
            Err(Error::ArithmeticOverflow)
        } else {
            Ok(
                LocalCoinView {
                    balances: debit(self.balances, from, amount as int),
                    total_supply: self.total_supply - amount,
                    total_burned: self.total_burned + amount,
                    events: self.events.push(TokenEvent::Burn { from, amount }),
                    ..self
                },
            )
        }
    }

    /// `transfer`: `from` moves `amount` of what it holds to `to`, and the
    /// token publishes the transfer.
    pub open spec fn transfer(self, auth: Auth, from: Address, to: Address, amount: i128) -> Result<
        LocalCoinView,
        Error,
    > {
        if !auth.covers(from) {
            Err(Error::Unauthorized)
        } else if amount < 0 {
            Err(Error::NegativeAmount)
        } else if self.balance(from) < amount {
            Err(Error::InsufficientBalance)
        } else {
            Ok(
                LocalCoinView {
                    balances: credit(
                        debit(self.balances, from, amount as int),
                        to,
                        amount as int,
                    ),
                    events: self.events.push(TokenEvent::Transfer { from, to, amount }),
                    ..self
                },
            )
        }
    }

    /// `recipient_to_merchant_transfer`: a transfer that is refused unless
    /// `to` is among `merchants`, the merchants that the issuance manager
    /// has bound to this token.
    pub open spec fn recipient_to_merchant_transfer(
        self,
        auth: Auth,
        from: Address,
        to: Address,
        amount: i128,
        merchants: Seq<Address>,
    ) -> Result<LocalCoinView, Error> {
        if self.issuance.is_none() {
            Err(Error::IssuanceNotSet)
        } else if !merchants.contains(to) {
            Err(Error::MerchantNotAccepted)
        } else {
            self.transfer(auth, from, to, amount)
        }
    }

    /// `set_admin`: the administrator names its successor, and the token
    /// publishes the change.
    pub open spec fn set_admin(self, auth: Auth, new_admin: Address) -> Result<
        LocalCoinView,
        Error,
    > {
        if self.admin.is_none() {
            Err(Error::TokenNotInitialized)
        } else if !auth.covers(self.admin.unwrap()) {
            Err(Error::Unauthorized)
        } else {
            Ok(
                LocalCoinView {
                    admin: Some(new_admin),
                    events: self.events.push(
                        TokenEvent::SetAdmin { admin: self.admin.unwrap(), new_admin },
                    ),
                    ..self
                },
            )
        }
    }

    /// `set_issuance_management`: binds the issuance manager, once.
    pub open spec fn set_issuance_management(self, issuance: Address) -> Result<
        LocalCoinView,
        Error,
    > {
        if self.issuance.is_some() {
            Err(Error::IssuanceAlreadySet)
        } else {
            Ok(LocalCoinView { issuance: Some(issuance), ..self })
        }
    }
}

/// A second `initialize` is refused as "already initialized" and leaves the
/// token as the first one left it.
pub proof fn lemma_second_initialize_is_refused(
    coin: LocalCoinView,
    first: TokenMetadata,
    first_admin: Address,
    second: TokenMetadata,
    second_admin: Address,
    outcome: Result<(), Error>,
    after: LocalCoinView,
)
    requires
        coin.initialize(first_admin, first.decimal, first.name, first.symbol) matches Ok(once)
            && settles(
            once.initialize(second_admin, second.decimal, second.name, second.symbol),
            once,
            outcome,
            after,
        ),
    ensures
        outcome == Err::<(), Error>(Error::TokenAlreadyInitialized),
        after == coin.initialize(first_admin, first.decimal, first.name, first.symbol).unwrap(),
{
}

/// The issuance manager of a token is bound once: after a binding, every
/// further one is refused and changes nothing.
pub proof fn lemma_issuance_is_bound_once(
    coin: LocalCoinView,
    first: Address,
    second: Address,
    outcome: Result<(), Error>,
    after: LocalCoinView,
)
    requires
        coin.set_issuance_management(first) matches Ok(once) && settles(
            once.set_issuance_management(second),
            once,
            outcome,
            after,
        ),
    ensures
        outcome == Err::<(), Error>(Error::IssuanceAlreadySet),
        after.issuance == Some(first),
{
}

/// At any time the balances of a token add up to its total supply, so their
/// sum never exceeds it, and no holder has more than the total supply.
pub proof fn lemma_balances_add_up_to_supply(coin: LocalCoinView, who: Address)
    requires
        coin.wf(),
    ensures
        sum_of(coin.balances) == coin.total_supply,
        sum_of(coin.balances) <= coin.total_supply,
        0 <= coin.balance(who) <= coin.total_supply,
{
    lemma_balance_within_sum(coin.balances, who);
}

/// As long as nothing has been burned, the total supply less the total burned
/// is the sum of the balances.
pub proof fn lemma_supply_less_burned_is_balances(coin: LocalCoinView)
    requires
        coin.wf(),
        coin.total_burned == 0,
    ensures
        coin.total_supply - coin.total_burned == sum_of(coin.balances),
{
}

/// Minting and burning keep the books: what was minted is what is held plus
/// what was burned. Stated for one step: the supply and the burned total
/// together grow by a minted amount and stay put under a burn or a transfer.
pub proof fn lemma_steps_keep_the_books(
    coin: LocalCoinView,
    auth: Auth,
    from: Address,
    to: Address,
    amount: i128,
)
    requires
        coin.wf(),
    ensures
        coin.mint(auth, to, amount) matches Ok(next) ==> next.wf() && next.total_supply
            + next.total_burned == coin.total_supply + coin.total_burned + amount,
        coin.burn(auth, from, amount) matches Ok(next) ==> next.wf() && next.total_supply
            + next.total_burned == coin.total_supply + coin.total_burned,
        coin.transfer(auth, from, to, amount) matches Ok(next) ==> next.wf() && next.total_supply
            == coin.total_supply && next.total_burned == coin.total_burned,
{
    lemma_mint_keeps_wf(coin, auth, to, amount);
    lemma_burn_keeps_wf(coin, auth, from, amount);
    lemma_transfer_keeps_wf(coin, auth, from, to, amount);
}

/// A successful mint leaves a well-formed token in which `to` holds `amount`
/// more and everyone else what they held.
pub proof fn lemma_mint_keeps_wf(coin: LocalCoinView, auth: Auth, to: Address, amount: i128)
    requires
        coin.wf(),
    ensures
        coin.mint(auth, to, amount) matches Ok(next) ==> {
            &&& next.wf()
            &&& next.balance(to) == coin.balance(to) + amount
            &&& forall|other: Address| other != to ==> next.balance(other) == coin.balance(other)
        },
{
    if coin.mint(auth, to, amount).is_ok() {
        lemma_balance_within_sum(coin.balances, to);
        lemma_set_balance(coin.balances, to, (coin.balance(to) + amount) as i128);
    }
}

/// A successful burn leaves a well-formed token in which `from` holds
/// `amount` less and everyone else what they held.
pub proof fn lemma_burn_keeps_wf(coin: LocalCoinView, auth: Auth, from: Address, amount: i128)
    requires
        coin.wf(),
    ensures
        coin.burn(auth, from, amount) matches Ok(next) ==> {
            &&& next.wf()
            &&& next.balance(from) == coin.balance(from) - amount
            &&& forall|other: Address| other != from ==> next.balance(other) == coin.balance(other)
        },
{
    if coin.burn(auth, from, amount).is_ok() {
        lemma_balance_within_sum(coin.balances, from);
        lemma_set_balance(coin.balances, from, (coin.balance(from) - amount) as i128);
    }
}

/// A successful transfer leaves a well-formed token with the same supply, in
/// which `amount` has moved from `from` to `to`; a transfer to oneself
/// changes no balance.
pub proof fn lemma_transfer_keeps_wf(
    coin: LocalCoinView,
    auth: Auth,
    from: Address,
    to: Address,
    amount: i128,
)
    requires
        coin.wf(),
    ensures
        coin.transfer(auth, from, to, amount) matches Ok(next) ==> {
            &&& next.wf()
            &&& from != to ==> next.balance(from) == coin.balance(from) - amount && next.balance(to)
                == coin.balance(to) + amount
            &&& from == to ==> next.balance(from) == coin.balance(from)
            &&& forall|other: Address|
                other != from && other != to ==> next.balance(other) == coin.balance(other)
        },
{
    if coin.transfer(auth, from, to, amount).is_ok() {
        lemma_balance_within_sum(coin.balances, from);
        lemma_balance_within_sum(coin.balances, to);
        let mid = debit(coin.balances, from, amount as int);
        lemma_set_balance(coin.balances, from, (coin.balance(from) - amount) as i128);
        lemma_balance_within_sum(mid, to);
        lemma_set_balance(mid, to, (balance_in(mid, to) + amount) as i128);
    }
}

impl View for LocalCoin {
    type V = LocalCoinView;

    closed spec fn view(&self) -> LocalCoinView {
        LocalCoinView {
            admin: self.admin,
            issuance: self.issuance,
            metadata: self.metadata,
            balances: self.balances@,
            total_supply: self.total_supply as int,
            total_burned: self.total_burned as int,
            events: self.events@,
        }
    }
}

impl LocalCoin {
    /// A token that nobody has touched yet.
    pub fn new() -> (coin: LocalCoin)
        ensures
            coin@ == LocalCoinView::blank(),
            coin@.wf(),
    {
        let coin = LocalCoin {
            admin: None,
            issuance: None,
            metadata: None,
            balances: AddressMap::new(),
            total_supply: 0,
            total_burned: 0,
            events: Vec::new(),
        };
        assert(coin@ =~= LocalCoinView::blank());
        coin
    }

    /// The token in the state that the parts describe and with nothing
    /// published yet, provided that the parts describe a well-formed token.
    pub fn restore(
        admin: Option<Address>,
        issuance: Option<Address>,
        metadata: Option<TokenMetadata>,
        balances: AddressMap<i128>,
        total_supply: i128,
        total_burned: i128,
    ) -> (made: Option<LocalCoin>)
        requires
            balances.wf(),
        ensures
            made.is_some() == (LocalCoinView {
                admin,
                issuance,
                metadata,
                balances: balances@,
                total_supply: total_supply as int,
                total_burned: total_burned as int,
                events: Seq::empty(),
            }).wf(),
            made matches Some(coin) ==> coin@ == (LocalCoinView {
                admin,
                issuance,
                metadata,
                balances: balances@,
                total_supply: total_supply as int,
                total_burned: total_burned as int,
                events: Seq::empty(),
            }),
    {
        if admin.is_some() != metadata.is_some() || total_burned < 0 {
            return None;
        }
        if total_supply < 0 {
            proof {
                if non_negative(balances@) {
                    lemma_sum_of_prefix(balances@, 0);
                }
            }
            return None;
        }
        let mut sum: i128 = 0;
        let mut i: usize = 0;
        assert(balances@.take(0) =~= Seq::<(Address, i128)>::empty());
        while i < balances.len()
            invariant
                i <= balances@.len(),
                0 <= sum <= total_supply,
                sum == sum_of(balances@.take(i as int)),
                non_negative(balances@.take(i as int)),
            decreases balances@.len() - i,
        {
            let amount = *balances.entry(i).1;
            proof {
                assert(balances@.take(i + 1).drop_last() =~= balances@.take(i as int));
                assert(balances@.take(i + 1).last() == balances@[i as int]);
                if non_negative(balances@) {
                    lemma_sum_of_prefix(balances@, i + 1);
                }
            }
            if amount < 0 {
                return None;
            }
            if amount > total_supply - sum {
                return None;
            }
            sum = sum + amount;
            proof {
                let longer = balances@.take(i + 1);
                assert forall|j: int| 0 <= j < longer.len() implies (#[trigger] longer[j]).1
                    >= 0 by {
                    if j < i {
                        assert(longer[j] == balances@.take(i as int)[j]);
                    }
                }
            }
            i = i + 1;
        }
        assert(balances@.take(balances@.len() as int) =~= balances@);
        if sum != total_supply {
            return None;
        }
        let coin = LocalCoin {
            admin,
            issuance,
            metadata,
            balances,
            total_supply,
            total_burned,
            events: Vec::new(),
        };
        assert(coin@ =~= (LocalCoinView {
            admin,
            issuance,
            metadata,
            balances: balances@,
            total_supply: total_supply as int,
            total_burned: total_burned as int,
            events: Seq::empty(),
        }));
        Some(coin)
    }

    /// The events published so far, in their order.
    pub fn events(&self) -> (events: &Vec<TokenEvent>)
        ensures
            events@ == self@.events,
    {
        &self.events
    }

    /// The recorded balances.
    pub fn balances(&self) -> (balances: &AddressMap<i128>)
        ensures
            balances@ == self@.balances,
            self@.wf() ==> balances.wf(),
    {
        &self.balances
    }

    /// The display data, once the token is initialized.
    pub fn metadata(&self) -> (found: Option<&TokenMetadata>)
        ensures
            found.is_some() == self@.metadata.is_some(),
            found matches Some(metadata) ==> *metadata == self@.metadata.unwrap(),
    {
        self.metadata.as_ref()
    }

    /// Binds the administrator and the display data of a fresh token.
    pub fn initialize(
        &mut self,
        admin: Address,
        decimal: u32,
        name: String,
        symbol: String,
    ) -> (outcome: Result<(), Error>)
        requires
            old(self)@.wf(),
        ensures
            final(self)@.wf(),
            settles(
                old(self)@.initialize(admin, decimal, name, symbol),
                old(self)@,
                outcome,
                final(self)@,
            ),
    {
        if self.admin.is_some() {
            return Err(Error::TokenAlreadyInitialized);
        }
        if decimal > 255 {
            return Err(Error::DecimalTooLarge);
        }
        let ghost next = old(self)@.initialize(admin, decimal, name, symbol).unwrap();
        self.admin = Some(admin);
        self.metadata = Some(TokenMetadata { decimal, name, symbol });
        assert(self@ =~= next);
        Ok(())
    }

    /// Whether `mint` would succeed, and if not, why not.
    pub fn can_mint(&self, auth: &Auth, to: Address, amount: i128) -> (outcome: Result<(), Error>)
        requires
            self@.wf(),
        ensures
            outcome == verdict(self@.mint(*auth, to, amount)),
    {
        check_nonnegative_amount(amount)?;
        let admin = match self.admin {
            Some(admin) => admin,
            None => {
                return Err(Error::TokenNotInitialized);
            },
        };
        if !auth.authorizes(admin) {
            return Err(Error::Unauthorized);
        }
        proof {
            lemma_balance_within_sum(self@.balances, to);
        }
        if amount > i128::MAX - self.total_supply {
            return Err(Error::ArithmeticOverflow);
        }
        Ok(())
    }

    /// Whether `burn` would succeed, and if not, why not.
    pub fn can_burn(&self, auth: &Auth, from: Address, amount: i128) -> (outcome: Result<(), Error>)
        requires
            self@.wf(),
        ensures
            outcome == verdict(self@.burn(*auth, from, amount)),
    {
        let admin = match self.admin {
            Some(admin) => admin,
            None => {
                return Err(Error::TokenNotInitialized);
            },
        };
        if !auth.authorizes(admin) {
            return Err(Error::Unauthorized);
        }
        check_nonnegative_amount(amount)?;
        if read_balance(&self.balances, from) < amount {
            return Err(Error::InsufficientBalance);
        }
        if amount > i128::MAX - self.total_burned {
            return Err(Error::ArithmeticOverflow);
        }
        Ok(())
    }

    /// Whether `transfer` would succeed, and if not, why not.
    pub fn can_transfer(&self, auth: &Auth, from: Address, to: Address, amount: i128) -> (outcome:
        Result<(), Error>)
        requires
            self@.wf(),
        ensures
            outcome == verdict(self@.transfer(*auth, from, to, amount)),
    {
        if !auth.authorizes(from) {
            return Err(Error::Unauthorized);
        }
        check_nonnegative_amount(amount)?;
        if read_balance(&self.balances, from) < amount {
            return Err(Error::InsufficientBalance);
        }
        Ok(())
    }

    /// Credits `amount` new tokens to `to`, on the administrator's authority.
    pub fn mint(&mut self, auth: &Auth, to: Address, amount: i128) -> (outcome: Result<(), Error>)
        requires
            old(self)@.wf(),
        ensures
            final(self)@.wf(),
            settles(old(self)@.mint(*auth, to, amount), old(self)@, outcome, final(self)@),
    {
        self.can_mint(auth, to, amount)?;
        proof {
            lemma_balance_within_sum(self@.balances, to);
            lemma_mint_keeps_wf(self@, *auth, to, amount);
        }
        let ghost next = old(self)@.mint(*auth, to, amount).unwrap();
        let admin = self.admin.unwrap();
        receive_balance(&mut self.balances, to, amount);
        self.total_supply = self.total_supply + amount;
        self.events.push(TokenEvent::Mint { admin, to, amount });
        assert(self@ =~= next);
        Ok(())
    }

    /// Destroys `amount` of what `from` holds, on the administrator's
    /// authority.
    pub fn burn(&mut self, auth: &Auth, from: Address, amount: i128) -> (outcome: Result<(), Error>)
        requires
            old(self)@.wf(),
        ensures
            final(self)@.wf(),
            settles(old(self)@.burn(*auth, from, amount), old(self)@, outcome, final(self)@),
    {
        self.can_burn(auth, from, amount)?;
        proof {
            lemma_balance_within_sum(self@.balances, from);
            lemma_burn_keeps_wf(self@, *auth, from, amount);
        }
        let ghost next = old(self)@.burn(*auth, from, amount).unwrap();
        let spent = spend_balance(&mut self.balances, from, amount);
        self.total_supply = self.total_supply - amount;
        self.total_burned = self.total_burned + amount;
        self.events.push(TokenEvent::Burn { from, amount });
        assert(self@ =~= next);
        Ok(())
    }

    /// Moves `amount` from `from` to `to`, on the authority of `from`.
    pub fn transfer(&mut self, auth: &Auth, from: Address, to: Address, amount: i128) -> (outcome:
        Result<(), Error>)
        requires
            old(self)@.wf(),
        ensures
            final(self)@.wf(),
            settles(
                old(self)@.transfer(*auth, from, to, amount),
                old(self)@,
                outcome,
                final(self)@,
            ),
    {
        self.can_transfer(auth, from, to, amount)?;
        proof {
            lemma_balance_within_sum(self@.balances, from);
            lemma_balance_within_sum(self@.balances, to);
            lemma_transfer_keeps_wf(self@, *auth, from, to, amount);
            lemma_set_balance(self@.balances, from, (self@.balance(from) - amount) as i128);
            lemma_balance_within_sum(debit(self@.balances, from, amount as int), to);
        }
        let ghost next = old(self)@.transfer(*auth, from, to, amount).unwrap();
        let spent = spend_balance(&mut self.balances, from, amount);
        receive_balance(&mut self.balances, to, amount);
        self.events.push(TokenEvent::Transfer { from, to, amount });
        assert(self@ =~= next);
        Ok(())
    }

    /// Moves `amount` from a recipient to a merchant, provided that the
    /// merchant is among `merchants`, which the caller has from the issuance
    /// manager's record for this token.
    pub fn recipient_to_merchant_transfer(
        &mut self,
        auth: &Auth,
        from: Address,
        to: Address,
        amount: i128,
        merchants: &Vec<Address>,
    ) -> (outcome: Result<(), Error>)
        requires
            old(self)@.wf(),
        ensures
            final(self)@.wf(),
            settles(
                old(self)@.recipient_to_merchant_transfer(*auth, from, to, amount, merchants@),
                old(self)@,
                outcome,
                final(self)@,
            ),
    {
        if self.issuance.is_none() {
            return Err(Error::IssuanceNotSet);
        }
        if !contains_address(merchants, to) {
            return Err(Error::MerchantNotAccepted);
        }
        self.transfer(auth, from, to, amount)
    }

    /// Hands the administration over to `new_admin`.
    pub fn set_admin(&mut self, auth: &Auth, new_admin: Address) -> (outcome: Result<(), Error>)
        requires
            old(self)@.wf(),
        ensures
            final(self)@.wf(),
            settles(old(self)@.set_admin(*auth, new_admin), old(self)@, outcome, final(self)@),
    {
        let admin = match self.admin {
            Some(admin) => admin,
            None => {
                return Err(Error::TokenNotInitialized);
            },
        };
        if !auth.authorizes(admin) {
            return Err(Error::Unauthorized);
        }
        let ghost next = old(self)@.set_admin(*auth, new_admin).unwrap();
        self.admin = Some(new_admin);
        self.events.push(TokenEvent::SetAdmin { admin, new_admin });
        assert(self@ =~= next);
        Ok(())
    }

    /// Binds the issuance manager that scopes this token. It can be bound
    /// once.
    pub fn set_issuance_management(&mut self, issuance: Address) -> (outcome: Result<(), Error>)
        requires
            old(self)@.wf(),
        ensures
            final(self)@.wf(),
            settles(
                old(self)@.set_issuance_management(issuance),
                old(self)@,
                outcome,
                final(self)@,
            ),
    {
        if self.issuance.is_some() {
            return Err(Error::IssuanceAlreadySet);
        }
        let ghost next = old(self)@.set_issuance_management(issuance).unwrap();
        self.issuance = Some(issuance);
        assert(self@ =~= next);
        Ok(())
    }

    /// What `id` holds; nothing where no balance is recorded.
    pub fn balance_of(&self, id: Address) -> (amount: i128)
        requires
            self@.wf(),
        ensures
            amount == self@.balance(id),
            amount == self@.held(id),
    {
        read_balance(&self.balances, id)
    }

    /// The tokens in circulation.
    pub fn total_supply(&self) -> (amount: i128)
        ensures
            amount == self@.total_supply,
    {
        self.total_supply
    }

    /// The tokens destroyed so far.
    pub fn total_burned(&self) -> (amount: i128)
        ensures
            amount == self@.total_burned,
    {
        self.total_burned
    }

    /// The issuance manager that scopes this token.
    pub fn get_issuance_management(&self) -> (found: Result<Address, Error>)
        ensures
            found == match self@.issuance {
                Some(issuance) => Ok::<Address, Error>(issuance),
                None => Err::<Address, Error>(Error::IssuanceNotSet),
            },
    {
        match self.issuance {
            Some(issuance) => Ok(issuance),
            None => Err(Error::IssuanceNotSet),
        }
    }

    /// The administrator.
    pub fn get_admin(&self) -> (found: Result<Address, Error>)
        ensures
            found == match self@.admin {
                Some(admin) => Ok::<Address, Error>(admin),
                None => Err::<Address, Error>(Error::TokenNotInitialized),
            },
    {
        match self.admin {
            Some(admin) => Ok(admin),
            None => Err(Error::TokenNotInitialized),
        }
    }

    /// Whether the token has been initialized.
    pub fn has_administrator(&self) -> (set: bool)
        ensures
            set == self@.admin.is_some(),
    {
        self.admin.is_some()
    }

    /// Whether the issuance manager has been bound.
    pub fn has_issuance(&self) -> (set: bool)
        ensures
            set == self@.issuance.is_some(),
    {
        self.issuance.is_some()
    }

    /// The number of decimal places of an initialized token.
    pub fn decimals(&self) -> (decimal: u32)
        requires
            self@.metadata.is_some(),
        ensures
            decimal == self@.metadata.unwrap().decimal,
    {
        match &self.metadata {
            Some(m) => m.decimal,
            None => 0,
        }
    }

    /// The display name of an initialized token.
    pub fn name(&self) -> (name: String)
        requires
            self@.metadata.is_some(),
        ensures
            name == self@.metadata.unwrap().name,
    {
        match &self.metadata {
            Some(m) => m.name.clone(),
            None => String::new(),
        }
    }

    /// The symbol of an initialized token.
    pub fn symbol(&self) -> (symbol: String)
        requires
            self@.metadata.is_some(),
        ensures
            symbol == self@.metadata.unwrap().symbol,
    {
        match &self.metadata {
            Some(m) => m.symbol.clone(),
            None => String::new(),
        }
    }
}

} // verus!
