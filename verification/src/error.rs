use vstd::prelude::*;

verus! {

/// Why an entry point refused an invocation. Every refusal leaves the state of
/// the contract that reports it exactly as it was.
#[derive(Clone, Copy, Debug, PartialEq, Eq, Structural)]
pub enum Error {
    /// The principal whose authorization the entry point demands is neither
    /// the signer nor the calling contract.
    Unauthorized,
    /// A registry, issuance manager or campaign manager was initialized twice.
    AlreadyInitialized,
    /// The registry has no super admin yet.
    SuperAdminNotSet,
    /// No campaign management address has been recorded.
    CampaignManagementNotSet,
    /// The registry has no issuance management address yet.
    IssuanceManagementNotSet,
    /// A manager's registry or stable coin address has not been recorded.
    AddressNotSet,
    /// The merchant already has a registration record.
    RegistrationAlreadySent,
    /// Verification was asked for a merchant that never registered.
    NoRegistrationRequest,
    /// An update was asked for a merchant that never registered.
    NoRegistrationRequestFromMerchant,
    /// The merchant is already in the verified list.
    MerchantAlreadyVerified,
    /// Only a verified merchant's profile can be updated.
    MerchantNotVerified,
    /// No owner is registered for the campaign.
    ContractDoesNotExist,
    /// A token with the symbol has been issued before.
    TokenSymbolExists,
    /// A merchant handed to the issuance manager is not verified.
    UnverifiedMerchant,
    /// The issuance manager knows no token at the address.
    TokenDoesNotExist,
    /// An item to add is already bound to the token.
    ItemAlreadyExists,
    /// A merchant to add is already bound to the token.
    MerchantAlreadyExists,
    /// A campaign must escrow at least the minimum amount.
    AmountBelowMinimum,
    /// A settlement must be for a positive amount.
    AmountNotPositive,
    /// The token is not among the registry's deployed tokens.
    InvalidToken,
    /// Settlement was asked by someone who is not a verified merchant.
    CallerNotMerchant,
    /// The merchant holds less of the token than it wants settled.
    InsufficientTokenForSettlement,
    /// The campaign manager's escrow cannot cover the settlement.
    InsufficientStableCoin,
    /// The campaign manager never created the campaign.
    CampaignNotFound,
    /// The caller is not the campaign's registered owner.
    NotCampaignOwner,
    /// The campaign has been ended before.
    CampaignAlreadyEnded,
    /// The campaign's identity and metadata were bound before.
    CampaignInfoAlreadySet,
    /// The campaign has no owner yet.
    OwnerNotSet,
    /// The campaign has no token yet.
    TokenAddressNotSet,
    /// The recipient is not in the campaign's verified list.
    RecipientNotVerified,
    /// The username has joined the campaign before.
    CampaignAlreadyJoined,
    /// A username to verify never joined the campaign.
    UsernameNotJoined,
    /// A username to verify belongs to an already verified recipient.
    RecipientAlreadyVerified,
    /// The token was initialized twice.
    TokenAlreadyInitialized,
    /// The token has no administrator yet.
    TokenNotInitialized,
    /// The token's decimal count must fit in eight bits.
    DecimalTooLarge,
    /// Token amounts are never negative.
    NegativeAmount,
    /// The sender holds less than the amount to move or burn.
    InsufficientBalance,
    /// The token's issuance manager was bound before.
    IssuanceAlreadySet,
    /// The token has no issuance manager yet.
    IssuanceNotSet,
    /// The receiving merchant is not eligible for the token.
    MerchantNotAccepted,
    /// A counter or total would leave the range of its integer type.
    ArithmeticOverflow,
    /// The salt counter has left the range of salts: nothing more can be
    /// deployed.
    SaltsExhausted,
    /// A contract was to be created at an address that is already taken.
    ContractAlreadyExists,
    /// No contract of the expected kind lives at the address that was called.
    ContractNotFound,
}

/// How the outcome `outcome` of an entry point relates the state `post` that it
/// leaves to the state `pre` in which it was called, where `expected` is the
/// step that the entry point is to take from `pre`: on success the expected
/// state is reached, and on failure the expected error is reported and
/// nothing has changed.
pub open spec fn settles<S>(
    expected: Result<S, Error>,
    pre: S,
    outcome: Result<(), Error>,
    post: S,
) -> bool {
    match expected {
        Ok(next) => outcome.is_ok() && post == next,
        Err(e) => outcome == Err::<(), Error>(e) && post == pre,
    }
}

/// Whether an expected step succeeds, and if not, why not.
pub open spec fn verdict<S>(expected: Result<S, Error>) -> Result<(), Error> {
    match expected {
        Ok(_) => Ok(()),
        Err(e) => Err(e),
    }
}

/// `settles` for an entry point that also hands a value back: on success the
/// expected state is reached and the expected value returned.
pub open spec fn settles_with<S, T>(
    expected: Result<(S, T), Error>,
    pre: S,
    outcome: Result<T, Error>,
    post: S,
) -> bool {
    match expected {
        Ok(next) => outcome == Ok::<T, Error>(next.1) && post == next.0,
        Err(e) => outcome == Err::<T, Error>(e) && post == pre,
    }
}

impl Error {
    /// The human-readable reason that is surfaced to the submitter.
    pub fn message(&self) -> (text: &'static str)
        ensures
            text@ == self.text(),
    {
        match self {
            Error::Unauthorized => "auth failed",
            Error::AlreadyInitialized => "Contract already initialized.",
            Error::SuperAdminNotSet => "Super admin not set.",
            Error::CampaignManagementNotSet => "Camapign management address not set.",
            Error::IssuanceManagementNotSet => "Issunace management address not set.",
            Error::AddressNotSet => "Address not set.",
            Error::RegistrationAlreadySent => "Registration request already sent.",
            Error::NoRegistrationRequest => "No registration request.",
            Error::NoRegistrationRequestFromMerchant => "No registration request from the merchant.",
            Error::MerchantAlreadyVerified => "Merchant already verified.",
            Error::MerchantNotVerified => "Merchant not verified. Please first verify to update info.",
            Error::ContractDoesNotExist => "Contract doesn't exist.",
            Error::TokenSymbolExists => "Token with given symbol already exists.",
            Error::UnverifiedMerchant => "Merchants list contains unverified merchant.",
            Error::TokenDoesNotExist => "Token doesn't exist.",
            Error::ItemAlreadyExists => "Item provided already exist.",
            Error::MerchantAlreadyExists => "Merchant provided already exist.",
            Error::AmountBelowMinimum => "Amount cannot be less than 100 USDC.",
            Error::AmountNotPositive => "Amount cannot be equal or less than zero.",
            Error::InvalidToken => "Invalid token passed in param.",
            Error::CallerNotMerchant => "Caller not merchant.",
            Error::InsufficientTokenForSettlement => "Insufficient token for settlement.",
            Error::InsufficientStableCoin => "Insufficient stable coin in camapign management for settlement.",
            Error::CampaignNotFound => "Campaign id not found in campaigns list.",
            Error::NotCampaignOwner => "You are not a owner of the given campaign.",
            Error::CampaignAlreadyEnded => "Campaign already ended.",
            Error::CampaignInfoAlreadySet => "Campaign info already set.",
            Error::OwnerNotSet => "Owner address not set.",
            Error::TokenAddressNotSet => "Token address not set.",
            Error::RecipientNotVerified => "Recipient not verified.",
            Error::CampaignAlreadyJoined => "Campaign already joined.",
            Error::UsernameNotJoined => "Given list contains username thet has't joined campaign.",
            Error::RecipientAlreadyVerified => "Given list contains already verified username.",
            Error::TokenAlreadyInitialized => "already initialized",
            Error::TokenNotInitialized => "token not initialized",
            Error::DecimalTooLarge => "Decimal must fit in a u8",
            Error::NegativeAmount => "negative amount is not allowed",
            Error::InsufficientBalance => "insufficient balance",
            Error::IssuanceAlreadySet => "Address already set.",
            Error::IssuanceNotSet => "issuance management not set",
            Error::MerchantNotAccepted => "This token's item is not accepted by the merchant.",
            Error::ArithmeticOverflow => "arithmetic overflow",
            Error::SaltsExhausted => "no salt left for another deployment",
            Error::ContractAlreadyExists => "contract already exists",
            Error::ContractNotFound => "contract not found",
        }
    }

    /// The text of `message`, as a sequence of characters.
    pub open spec fn text(&self) -> Seq<char> {
        match self {
            Error::Unauthorized => "auth failed"@,
            Error::AlreadyInitialized => "Contract already initialized."@,
            Error::SuperAdminNotSet => "Super admin not set."@,
            Error::CampaignManagementNotSet => "Camapign management address not set."@,
            Error::IssuanceManagementNotSet => "Issunace management address not set."@,
            Error::AddressNotSet => "Address not set."@,
            Error::RegistrationAlreadySent => "Registration request already sent."@,
            Error::NoRegistrationRequest => "No registration request."@,
            Error::NoRegistrationRequestFromMerchant => "No registration request from the merchant."@,
            Error::MerchantAlreadyVerified => "Merchant already verified."@,
            Error::MerchantNotVerified => "Merchant not verified. Please first verify to update info."@,
            Error::ContractDoesNotExist => "Contract doesn't exist."@,
            Error::TokenSymbolExists => "Token with given symbol already exists."@,
            Error::UnverifiedMerchant => "Merchants list contains unverified merchant."@,
            Error::TokenDoesNotExist => "Token doesn't exist."@,
            Error::ItemAlreadyExists => "Item provided already exist."@,
            Error::MerchantAlreadyExists => "Merchant provided already exist."@,
            Error::AmountBelowMinimum => "Amount cannot be less than 100 USDC."@,
            Error::AmountNotPositive => "Amount cannot be equal or less than zero."@,
            Error::InvalidToken => "Invalid token passed in param."@,
            Error::CallerNotMerchant => "Caller not merchant."@,
            Error::InsufficientTokenForSettlement => "Insufficient token for settlement."@,
            Error::InsufficientStableCoin => "Insufficient stable coin in camapign management for settlement."@,
            Error::CampaignNotFound => "Campaign id not found in campaigns list."@,
            Error::NotCampaignOwner => "You are not a owner of the given campaign."@,
            Error::CampaignAlreadyEnded => "Campaign already ended."@,
            Error::CampaignInfoAlreadySet => "Campaign info already set."@,
            Error::OwnerNotSet => "Owner address not set."@,
            Error::TokenAddressNotSet => "Token address not set."@,
            Error::RecipientNotVerified => "Recipient not verified."@,
            Error::CampaignAlreadyJoined => "Campaign already joined."@,
            Error::UsernameNotJoined => "Given list contains username thet has't joined campaign."@,
            Error::RecipientAlreadyVerified => "Given list contains already verified username."@,
            Error::TokenAlreadyInitialized => "already initialized"@,
            Error::TokenNotInitialized => "token not initialized"@,
            Error::DecimalTooLarge => "Decimal must fit in a u8"@,
            Error::NegativeAmount => "negative amount is not allowed"@,
            Error::InsufficientBalance => "insufficient balance"@,
            Error::IssuanceAlreadySet => "Address already set."@,
            Error::IssuanceNotSet => "issuance management not set"@,
            Error::MerchantNotAccepted => "This token's item is not accepted by the merchant."@,
            Error::ArithmeticOverflow => "arithmetic overflow"@,
            Error::SaltsExhausted => "no salt left for another deployment"@,
            Error::ContractAlreadyExists => "contract already exists"@,
            Error::ContractNotFound => "contract not found"@,
        }
    }
}

} // verus!
