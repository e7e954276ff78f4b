use vstd::prelude::*;

verus! {

/// Whether an identifier names a user account or a deployed contract instance.
#[derive(Clone, Copy, Debug, PartialEq, Eq, Structural, Hash)]
pub enum AddressKind {
    Account,
    Contract,
}

/// A 256-bit ledger identifier, held as two 128-bit words, together with its kind.
///
/// Two addresses are the same principal exactly when all three fields agree.
#[derive(Clone, Copy, Debug, PartialEq, Eq, Structural, Hash)]
pub struct Address {
    pub kind: AddressKind,
    pub hi: u128,
    pub lo: u128,
}

impl Address {
    /// The account whose identifier has `id` as its low word.
    pub fn account(id: u128) -> (a: Address)
        ensures
            a == (Address { kind: AddressKind::Account, hi: 0, lo: id }),
    {
        Address { kind: AddressKind::Account, hi: 0, lo: id }
    }

    /// The contract instance whose identifier has `id` as its low word.
    pub fn contract(id: u128) -> (a: Address)
        ensures
            a == (Address { kind: AddressKind::Contract, hi: 0, lo: id }),
    {
        Address { kind: AddressKind::Contract, hi: 0, lo: id }
    }
}

/// Who stands behind an invocation.
///
/// `signer` is the principal whose signature covers the whole transaction,
/// sub-invocations included. `invoker` is the contract that makes the call when
/// the call is a sub-invocation, and `None` for a call made directly by the
/// signer.
#[derive(Clone, Copy, Debug, PartialEq, Eq, Structural)]
pub struct Auth {
    pub signer: Address,
    pub invoker: Option<Address>,
}

impl Auth {
    /// An entry point that demands authorization from `who` accepts this
    /// invocation when `who` signed the transaction or is the calling contract.
    pub open spec fn covers(&self, who: Address) -> bool {
        self.signer == who || self.invoker == Some(who)
    }

    /// The authorization of a direct call by `signer`.
    pub open spec fn direct(signer: Address) -> Auth {
        Auth { signer, invoker: None }
    }

    /// A direct call by `signer`.
    #[verifier::when_used_as_spec(direct)]
    pub fn signed_by(signer: Address) -> (auth: Auth)
        ensures
            auth == Auth::direct(signer),
    {
        Auth { signer, invoker: None }
    }

    /// The authorization seen by a callee when `contract`, itself running under
    /// `self`, calls into it: the signature carries over and `contract` becomes
    /// the invoker.
    pub fn through(&self, contract: Address) -> (auth: Auth)
        ensures
            auth == (Auth { signer: self.signer, invoker: Some(contract) }),
    {
        Auth { signer: self.signer, invoker: Some(contract) }
    }

    /// Decides `covers`.
    pub fn authorizes(&self, who: Address) -> (ok: bool)
        ensures
            ok == self.covers(who),
    {
        if self.signer == who {
            true
        } else {
            match self.invoker {
                Some(contract) => contract == who,
                None => false,
            }
        }
    }
}

} // verus!
