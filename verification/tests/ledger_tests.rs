use localcoin::{Address, Error, Platform};

const ALL: [Error; 44] = [
    Error::Unauthorized,
    Error::AlreadyInitialized,
    Error::SuperAdminNotSet,
    Error::CampaignManagementNotSet,
    Error::IssuanceManagementNotSet,
    Error::AddressNotSet,
    Error::RegistrationAlreadySent,
    Error::NoRegistrationRequest,
    Error::NoRegistrationRequestFromMerchant,
    Error::MerchantAlreadyVerified,
    Error::MerchantNotVerified,
    Error::ContractDoesNotExist,
    Error::TokenSymbolExists,
    Error::UnverifiedMerchant,
    Error::TokenDoesNotExist,
    Error::ItemAlreadyExists,
    Error::MerchantAlreadyExists,
    Error::AmountBelowMinimum,
    Error::AmountNotPositive,
    Error::InvalidToken,
    Error::CallerNotMerchant,
    Error::InsufficientTokenForSettlement,
    Error::InsufficientStableCoin,
    Error::CampaignNotFound,
    Error::NotCampaignOwner,
    Error::CampaignAlreadyEnded,
    Error::CampaignInfoAlreadySet,
    Error::OwnerNotSet,
    Error::TokenAddressNotSet,
    Error::RecipientNotVerified,
    Error::CampaignAlreadyJoined,
    Error::UsernameNotJoined,
    Error::RecipientAlreadyVerified,
    Error::TokenAlreadyInitialized,
    Error::TokenNotInitialized,
    Error::DecimalTooLarge,
    Error::NegativeAmount,
    Error::InsufficientBalance,
    Error::IssuanceAlreadySet,
    Error::IssuanceNotSet,
    Error::MerchantNotAccepted,
    Error::ArithmeticOverflow,
    Error::SaltsExhausted,
    Error::ContractAlreadyExists,
];

#[test]
fn every_refusal_has_its_reason() {
    for error in ALL {
        assert!(!error.message().is_empty());
    }
    assert_eq!(Error::ContractNotFound.message(), "contract not found");
    assert_eq!(Error::Unauthorized.message(), "auth failed");
    assert_eq!(Error::SaltsExhausted.message(), "no salt left for another deployment");
    assert_eq!(Error::NegativeAmount.message(), "negative amount is not allowed");
    // No two refusals give the same reason.
    for (i, first) in ALL.iter().enumerate() {
        assert_ne!(first.message(), Error::ContractNotFound.message());
        for second in &ALL[i + 1..] {
            assert_ne!(first, second);
            assert_ne!(first.message(), second.message());
        }
    }
}

#[test]
fn the_managers_live_at_three_addresses() {
    let (r, i, m) = (Address::contract(10), Address::contract(11), Address::contract(12));
    let ledger = Platform::new(r, i, m).unwrap();
    assert_eq!(ledger.registry_address(), r);
    assert_eq!(ledger.issuance_address(), i);
    assert_eq!(ledger.management_address(), m);
    assert!(ledger.is_contract(r) && ledger.is_contract(i) && ledger.is_contract(m));
    assert!(!ledger.is_contract(Address::contract(13)));
    assert!(!ledger.is_contract(Address::account(10)));
    assert!(!ledger.has_token(r));
    assert!(!ledger.has_campaign(r));
    assert!(ledger.token(r).is_none());
    assert!(ledger.campaign(r).is_none());
    assert!(matches!(Platform::new(r, r, m), Err(Error::ContractAlreadyExists)));
    assert!(matches!(Platform::new(r, i, i), Err(Error::ContractAlreadyExists)));
    assert!(matches!(Platform::new(r, i, r), Err(Error::ContractAlreadyExists)));
}

#[test]
fn the_registry_is_reached_through_the_ledger() {
    let (r, i, m) = (Address::contract(10), Address::contract(11), Address::contract(12));
    let admin = Address::account(1);
    let successor = Address::account(2);
    let merchant = Address::account(3);
    let manager = Address::account(4);
    let issuer = Address::account(5);
    let mut ledger = Platform::new(r, i, m).unwrap();
    assert_eq!(ledger.verify_merchant(admin, merchant), Err(Error::SuperAdminNotSet));
    assert_eq!(ledger.registry_initialize(admin), Ok(()));
    assert_eq!(ledger.registry_initialize(successor), Err(Error::AlreadyInitialized));
    assert_eq!(
        ledger.merchant_registration(
            merchant,
            String::from("Ram"),
            String::from("1"),
            String::from("Shop"),
            String::from("Here")
        ),
        Ok(())
    );
    assert_eq!(ledger.verify_merchant(merchant, merchant), Err(Error::Unauthorized));
    assert_eq!(ledger.verify_merchant(admin, merchant), Ok(()));
    assert_eq!(
        ledger.update_merchant_info(
            admin,
            merchant,
            false,
            String::from("Ram"),
            String::from("2"),
            String::from("Shop"),
            String::from("There")
        ),
        Ok(())
    );
    assert_eq!(ledger.registry().get_unverified_merchants(), &vec![merchant]);
    assert_eq!(ledger.registry().get_merchant_info(merchant).unwrap().location, "There");
    assert_eq!(ledger.registry().events().len(), 3);

    // The managers that the registry knows act under their own addresses.
    assert_eq!(
        ledger.set_campaign_admin(manager, Address::contract(30), merchant),
        Err(Error::CampaignManagementNotSet)
    );
    assert_eq!(ledger.registry_set_campaign_management(admin, manager), Ok(()));
    assert_eq!(ledger.registry_set_issuance_management(admin, issuer), Ok(()));
    assert_eq!(
        ledger.set_campaign_admin(admin, Address::contract(30), merchant),
        Err(Error::Unauthorized)
    );
    assert_eq!(ledger.set_campaign_admin(manager, Address::contract(30), merchant), Ok(()));
    assert_eq!(ledger.registry().get_campaign_admin(Address::contract(30)), Ok(merchant));
    assert_eq!(ledger.add_deployed_tokens(manager, Address::contract(20)), Err(Error::Unauthorized));
    assert_eq!(ledger.add_deployed_tokens(issuer, Address::contract(20)), Ok(()));
    assert_eq!(ledger.registry().get_available_tokens(), &vec![Address::contract(20)]);

    assert_eq!(ledger.set_super_admin(successor, successor), Err(Error::Unauthorized));
    assert_eq!(ledger.set_super_admin(admin, successor), Ok(()));
    assert_eq!(ledger.registry().get_super_admin(), Ok(successor));
    assert_eq!(ledger.registry_set_campaign_management(admin, m), Err(Error::Unauthorized));

    // The managers find the new super admin in the registry.
    assert_eq!(ledger.management_initialize(r), Ok(()));
    assert_eq!(ledger.management_initialize(r), Err(Error::AlreadyInitialized));
    assert_eq!(ledger.issuance_initialize(r), Ok(()));
    assert_eq!(ledger.management_super_admin(), Ok(successor));
    assert_eq!(ledger.issuance_super_admin(), Ok(successor));
    assert_eq!(ledger.management_set_registry(admin, Address::contract(50)), Err(Error::Unauthorized));
    assert_eq!(ledger.management_set_registry(successor, Address::contract(50)), Ok(()));
    assert_eq!(ledger.management().get_registry(), Ok(Address::contract(50)));
    assert_eq!(ledger.management_super_admin(), Err(Error::ContractNotFound));
    assert_eq!(
        ledger.set_stable_coin_address(successor, Address::contract(13)),
        Err(Error::ContractNotFound)
    );
    assert_eq!(ledger.get_balance_of_stable_coin(admin), Err(Error::AddressNotSet));
}

#[test]
fn a_token_is_reached_through_the_ledger() {
    let (r, i, m) = (Address::contract(10), Address::contract(11), Address::contract(12));
    let admin = Address::account(1);
    let successor = Address::account(2);
    let user = Address::account(3);
    let token = Address::contract(20);
    let mut ledger = Platform::new(r, i, m).unwrap();
    assert_eq!(
        ledger.initialize_token(token, admin, 7, String::from("n"), String::from("s")),
        Err(Error::ContractNotFound)
    );
    assert_eq!(ledger.mint(admin, token, user, 1), Err(Error::ContractNotFound));
    assert_eq!(ledger.burn(admin, token, user, 1), Err(Error::ContractNotFound));
    assert_eq!(ledger.transfer(user, token, user, admin, 1), Err(Error::ContractNotFound));
    assert_eq!(ledger.set_token_admin(admin, token, successor), Err(Error::ContractNotFound));
    assert_eq!(ledger.set_token_issuance_management(token, i), Err(Error::ContractNotFound));
    ledger.deploy_token(token).unwrap();
    assert_eq!(ledger.mint(admin, token, user, 1), Err(Error::TokenNotInitialized));
    assert_eq!(ledger.initialize_token(token, admin, 256, String::from("n"), String::from("s")),
        Err(Error::DecimalTooLarge));
    assert_eq!(ledger.initialize_token(token, admin, 7, String::from("n"), String::from("s")), Ok(()));
    assert_eq!(
        ledger.initialize_token(token, user, 7, String::from("n"), String::from("s")),
        Err(Error::TokenAlreadyInitialized)
    );
    assert_eq!(ledger.mint(admin, token, user, 10), Ok(()));
    assert_eq!(ledger.transfer(user, token, user, admin, 4), Ok(()));
    assert_eq!(ledger.burn(admin, token, user, 1), Ok(()));
    assert_eq!(ledger.set_token_admin(user, token, successor), Err(Error::Unauthorized));
    assert_eq!(ledger.set_token_admin(admin, token, successor), Ok(()));
    assert_eq!(ledger.mint(admin, token, user, 1), Err(Error::Unauthorized));
    assert_eq!(ledger.set_token_issuance_management(token, Address::contract(99)), Ok(()));
    assert_eq!(
        ledger.set_token_issuance_management(token, i),
        Err(Error::IssuanceAlreadySet)
    );
    // The token is bound to an issuance manager that does not live on the ledger.
    assert_eq!(
        ledger.recipient_to_merchant_transfer(user, token, user, admin, 1),
        Err(Error::ContractNotFound)
    );
    let coin = ledger.token(token).unwrap();
    assert_eq!(coin.balance_of(user), 5);
    assert_eq!(coin.balance_of(admin), 4);
    assert_eq!(coin.total_supply(), 9);
    assert_eq!(coin.total_burned(), 1);
    assert_eq!(coin.get_admin(), Ok(successor));
}
