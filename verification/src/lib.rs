//! A token economy for local currencies, verified.
//!
//! A super admin issues tokens that are backed by a stable asset and can be
//! spent only at verified merchants. Donors fund campaigns, campaigns hand
//! tokens to verified recipients, recipients spend them at merchants, and
//! merchants have them settled into the backing asset.
//!
//! Five kinds of contract carry this: the registry, the issuance manager, the
//! campaign manager, the campaigns and the tokens. Every contract is a value
//! with a view, an invariant over the view, and entry points whose contracts
//! say, as a function of the view and the arguments, which state is reached
//! or why the invocation is refused. What an entry point needs from a
//! sibling contract, it takes as an argument; `platform` puts the contracts
//! on one ledger and has them call each other.

pub mod address;
pub mod campaign;
pub mod campaign_management;
pub mod collections;
pub mod deployment;
pub mod error;
pub mod issuance_management;
pub mod localcoin;
pub mod platform;
pub mod registry;

pub use address::{Address, AddressKind, Auth};
pub use campaign::{Campaign, CampaignEvent, CampaignInfo};
pub use campaign_management::{
    CampaignDetail, CampaignManagement, CampaignSummary, ManagementEvent, MIN_CAMPAIGN_AMOUNT,
};
pub use collections::{AddressMap, NameMap};
pub use error::Error;
pub use issuance_management::{
    IssuanceEvent, IssuanceManagement, TokenDeployment, TokenReport, TokenScope,
};
pub use localcoin::{check_nonnegative_amount, LocalCoin, TokenEvent, TokenMetadata};
pub use platform::Platform;
pub use registry::{MerchantInfo, Regisrty, RegistryEvent};
