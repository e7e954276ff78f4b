use localcoin::{Address, Auth, Error, MerchantInfo, Regisrty};

fn deploy_registry(super_admin: Address) -> Regisrty {
    let mut registry = Regisrty::new();
    registry.initialize(super_admin).unwrap();
    registry
}

fn register(registry: &mut Regisrty, merchant: Address) -> Result<(), Error> {
    registry.merchant_registration(
        merchant,
        String::from("Ram"),
        String::from("+977-9841123321"),
        String::from("Medical"),
        String::from("Chhauni, Kathmandu"),
    )
}

fn profile(verified_status: bool) -> MerchantInfo {
    MerchantInfo {
        verified_status,
        proprietor: String::from("Ram"),
        phone_no: String::from("+977-9841123321"),
        store_name: String::from("Medical"),
        location: String::from("Chhauni, Kathmandu"),
    }
}

#[test]
fn test_valid_super_admin() {
    let admin1 = Address::account(1);
    let registry = deploy_registry(admin1);
    assert_eq!(Ok(admin1), registry.get_super_admin());
}

#[test]
fn test_double_initialize() {
    let admin1 = Address::account(1);
    let admin2 = Address::account(2);
    let mut registry = deploy_registry(admin1);

    let outcome = registry.initialize(admin2);
    assert_eq!(outcome, Err(Error::AlreadyInitialized));
    assert_eq!(outcome.unwrap_err().message(), "Contract already initialized.");
    assert_eq!(registry.get_super_admin(), Ok(admin1));
}

#[test]
fn test_invalid_super_admin() {
    let admin1 = Address::account(1);
    let admin2 = Address::account(2);
    let registry = deploy_registry(admin1);
    assert_ne!(Ok(admin2), registry.get_super_admin());
}

#[test]
fn test_set_campaign_management() {
    let admin1 = Address::account(1);
    let campaign_management = Address::contract(10);
    let mut registry = deploy_registry(admin1);

    assert_eq!(
        registry.set_campaign_management(&Auth::signed_by(admin1), campaign_management),
        Ok(())
    );
    assert_eq!(registry.get_campaign_management(), Ok(campaign_management));
}

#[test]
fn test_non_admin_set_campaign_management() {
    let admin1 = Address::account(1);
    let non_admin = Address::account(2);
    let campaign_management = Address::contract(10);
    let mut registry = deploy_registry(admin1);

    let outcome = registry.set_campaign_management(&Auth::signed_by(non_admin), campaign_management);
    assert_eq!(outcome, Err(Error::Unauthorized));
    assert_eq!(
        registry.get_campaign_management(),
        Err(Error::CampaignManagementNotSet)
    );
}

#[test]
fn test_set_issunace_management() {
    let admin1 = Address::account(1);
    let issuance_management = Address::contract(11);
    let mut registry = deploy_registry(admin1);

    assert_eq!(
        registry.set_issuance_management(&Auth::signed_by(admin1), issuance_management),
        Ok(())
    );
    assert_eq!(registry.get_issuance_management(), Ok(issuance_management));
}

#[test]
fn test_non_admin_set_issunace_management() {
    let admin1 = Address::account(1);
    let non_admin = Address::account(2);
    let issuance_management = Address::contract(11);
    let mut registry = deploy_registry(admin1);

    let outcome = registry.set_issuance_management(&Auth::signed_by(non_admin), issuance_management);
    assert_eq!(outcome, Err(Error::Unauthorized));
    assert_eq!(
        registry.get_issuance_management(),
        Err(Error::IssuanceManagementNotSet)
    );
}

#[test]
fn test_valid_complete_flow() {
    let admin1 = Address::account(1);
    let merchant = Address::account(2);
    let campaign_management = Address::contract(10);
    let issuance_management = Address::contract(11);
    let campaign = Address::contract(12);
    let campaign_admin = Address::account(3);
    let token_address = Address::contract(13);
    let admin = Auth::signed_by(admin1);

    let mut registry = deploy_registry(admin1);
    registry.set_campaign_management(&admin, campaign_management).unwrap();
    registry.set_issuance_management(&admin, issuance_management).unwrap();

    assert_eq!(register(&mut registry, merchant), Ok(()));
    assert_eq!(registry.get_unverified_merchants(), &vec![merchant]);

    assert_eq!(registry.verify_merchant(&admin, merchant), Ok(()));
    assert_eq!(registry.get_verified_merchants(), &vec![merchant]);

    let manager = Auth::signed_by(admin1).through(campaign_management);
    assert_eq!(registry.set_campaign_admin(&manager, campaign, campaign_admin), Ok(()));
    assert_eq!(registry.get_campaign_admin(campaign), Ok(campaign_admin));

    let issuer = Auth::signed_by(admin1).through(issuance_management);
    assert_eq!(registry.add_deployed_tokens(&issuer, token_address), Ok(()));
    assert_eq!(registry.get_available_tokens(), &vec![token_address]);
}

#[test]
fn test_update_merchant_info() {
    let admin1 = Address::account(1);
    let merchant = Address::account(2);
    let admin = Auth::signed_by(admin1);
    let mut registry = deploy_registry(admin1);
    registry.set_campaign_management(&admin, Address::contract(10)).unwrap();
    registry.set_issuance_management(&admin, Address::contract(11)).unwrap();

    register(&mut registry, merchant).unwrap();
    assert_eq!(registry.get_unverified_merchants(), &vec![merchant]);

    registry.verify_merchant(&admin, merchant).unwrap();
    assert_eq!(registry.get_merchant_info(merchant), Some(&profile(true)));
    assert_eq!(registry.get_verified_merchants(), &vec![merchant]);
    assert_eq!(registry.get_unverified_merchants(), &Vec::<Address>::new());

    let update = |registry: &mut Regisrty, status: bool| {
        registry.update_merchant_info(
            &admin,
            merchant,
            status,
            String::from("Ram"),
            String::from("+977-9841123321"),
            String::from("Medical"),
            String::from("Chhauni, Kathmandu"),
        )
    };
    assert_eq!(update(&mut registry, true), Ok(()));
    assert_eq!(registry.get_verified_merchants(), &vec![merchant]);
    assert_eq!(registry.get_unverified_merchants(), &Vec::<Address>::new());

    assert_eq!(update(&mut registry, false), Ok(()));
    assert_eq!(registry.get_merchant_info(merchant), Some(&profile(false)));
    assert_eq!(registry.get_verified_merchants(), &Vec::<Address>::new());
    assert_eq!(registry.get_unverified_merchants(), &vec![merchant]);

    // Only a verified merchant's profile can be updated, also to verify it.
    let refused = update(&mut registry, true);
    assert_eq!(refused, Err(Error::MerchantNotVerified));
    assert_eq!(
        refused.unwrap_err().message(),
        "Merchant not verified. Please first verify to update info."
    );
    assert_eq!(registry.get_merchant_info(merchant), Some(&profile(false)));
}

#[test]
fn update_replaces_the_profile() {
    let admin1 = Address::account(1);
    let merchant = Address::account(2);
    let admin = Auth::signed_by(admin1);
    let mut registry = deploy_registry(admin1);
    register(&mut registry, merchant).unwrap();
    registry.verify_merchant(&admin, merchant).unwrap();
    assert_eq!(
        registry.update_merchant_info(
            &admin,
            merchant,
            true,
            String::from("Sita"),
            String::from("+977-1"),
            String::from("Grocery"),
            String::from("Patan"),
        ),
        Ok(())
    );
    assert_eq!(
        registry.get_merchant_info(merchant),
        Some(&MerchantInfo {
            verified_status: true,
            proprietor: String::from("Sita"),
            phone_no: String::from("+977-1"),
            store_name: String::from("Grocery"),
            location: String::from("Patan"),
        })
    );
    assert_eq!(
        registry.update_merchant_info(
            &Auth::signed_by(merchant),
            merchant,
            true,
            String::from("x"),
            String::from("x"),
            String::from("x"),
            String::from("x"),
        ),
        Err(Error::Unauthorized)
    );
    assert_eq!(
        registry.update_merchant_info(
            &admin,
            Address::account(3),
            true,
            String::from("x"),
            String::from("x"),
            String::from("x"),
            String::from("x"),
        ),
        Err(Error::NoRegistrationRequestFromMerchant)
    );
}

#[test]
fn test_invalid_merchant_verify() {
    let admin1 = Address::account(1);
    let merchant = Address::account(2);
    let mut registry = deploy_registry(admin1);

    let outcome = registry.verify_merchant(&Auth::signed_by(admin1), merchant);
    assert_eq!(outcome, Err(Error::NoRegistrationRequest));
    assert_eq!(outcome.unwrap_err().message(), "No registration request.");
}

#[test]
fn test_duplicate_merchant_registration_request() {
    let admin1 = Address::account(1);
    let merchant = Address::account(2);
    let mut registry = deploy_registry(admin1);

    assert_eq!(register(&mut registry, merchant), Ok(()));
    let outcome = register(&mut registry, merchant);
    assert_eq!(outcome, Err(Error::RegistrationAlreadySent));
    assert_eq!(outcome.unwrap_err().message(), "Registration request already sent.");
    assert_eq!(registry.get_unverified_merchants(), &vec![merchant]);
}

#[test]
fn test_invalid_caller_set_campaign_admin() {
    let admin1 = Address::account(1);
    let invalid_caller = Address::account(2);
    let campaign_management = Address::contract(10);
    let campaign = Address::contract(12);
    let campaign_admin = Address::account(3);
    let mut registry = deploy_registry(admin1);

    assert_eq!(
        registry.set_campaign_admin(&Auth::signed_by(admin1), campaign, campaign_admin),
        Err(Error::CampaignManagementNotSet)
    );
    registry
        .set_campaign_management(&Auth::signed_by(admin1), campaign_management)
        .unwrap();
    assert_eq!(
        registry.set_campaign_admin(&Auth::signed_by(invalid_caller), campaign, campaign_admin),
        Err(Error::Unauthorized)
    );
    assert_eq!(
        registry.set_campaign_admin(&Auth::signed_by(admin1), campaign, campaign_admin),
        Err(Error::Unauthorized)
    );
    let missing = registry.get_campaign_admin(campaign);
    assert_eq!(missing, Err(Error::ContractDoesNotExist));
    assert_eq!(missing.unwrap_err().message(), "Contract doesn't exist.");
}

#[test]
fn test_invalid_caller_add_deployed_tokens() {
    let admin1 = Address::account(1);
    let invalid_caller = Address::account(2);
    let issuance_management = Address::contract(11);
    let token_address = Address::contract(13);
    let mut registry = deploy_registry(admin1);

    assert_eq!(
        registry.add_deployed_tokens(&Auth::signed_by(admin1), token_address),
        Err(Error::IssuanceManagementNotSet)
    );
    registry
        .set_issuance_management(&Auth::signed_by(admin1), issuance_management)
        .unwrap();
    assert_eq!(
        registry.add_deployed_tokens(&Auth::signed_by(invalid_caller), token_address),
        Err(Error::Unauthorized)
    );
    assert!(registry.get_available_tokens().is_empty());
}

#[test]
fn an_untouched_registry_reads_as_empty() {
    let registry = Regisrty::new();
    assert!(!registry.has_administrator());
    let missing = registry.get_super_admin();
    assert_eq!(missing, Err(Error::SuperAdminNotSet));
    assert_eq!(missing.unwrap_err().message(), "Super admin not set.");
    assert_eq!(
        registry.get_campaign_management().unwrap_err().message(),
        "Camapign management address not set."
    );
    assert_eq!(
        registry.get_issuance_management().unwrap_err().message(),
        "Issunace management address not set."
    );
    assert!(registry.get_verified_merchants().is_empty());
    assert!(registry.get_unverified_merchants().is_empty());
    assert!(registry.get_available_tokens().is_empty());
    assert_eq!(registry.get_merchant_info(Address::account(1)), None);
}

#[test]
fn nothing_is_administered_before_initialization() {
    let mut registry = Regisrty::new();
    let anyone = Auth::signed_by(Address::account(1));
    assert_eq!(
        registry.set_campaign_management(&anyone, Address::contract(10)),
        Err(Error::SuperAdminNotSet)
    );
    assert_eq!(
        registry.set_super_admin(&anyone, Address::account(1)),
        Err(Error::SuperAdminNotSet)
    );
    assert_eq!(
        registry.verify_merchant(&anyone, Address::account(2)),
        Err(Error::SuperAdminNotSet)
    );
}

#[test]
fn the_super_admin_names_its_successor() {
    let admin1 = Address::account(1);
    let admin2 = Address::account(2);
    let mut registry = deploy_registry(admin1);
    assert_eq!(
        registry.set_super_admin(&Auth::signed_by(admin2), admin2),
        Err(Error::Unauthorized)
    );
    assert_eq!(registry.set_super_admin(&Auth::signed_by(admin1), admin2), Ok(()));
    assert_eq!(registry.get_super_admin(), Ok(admin2));
    assert_eq!(
        registry.set_campaign_management(&Auth::signed_by(admin1), Address::contract(10)),
        Err(Error::Unauthorized)
    );
    assert_eq!(
        registry.set_campaign_management(&Auth::signed_by(admin2), Address::contract(10)),
        Ok(())
    );
}

#[test]
fn a_merchant_is_verified_once() {
    let admin1 = Address::account(1);
    let merchant = Address::account(2);
    let admin = Auth::signed_by(admin1);
    let mut registry = deploy_registry(admin1);
    register(&mut registry, merchant).unwrap();
    assert_eq!(
        registry.verify_merchant(&Auth::signed_by(merchant), merchant),
        Err(Error::Unauthorized)
    );
    assert_eq!(registry.verify_merchant(&admin, merchant), Ok(()));
    let again = registry.verify_merchant(&admin, merchant);
    assert_eq!(again, Err(Error::MerchantAlreadyVerified));
    assert_eq!(again.unwrap_err().message(), "Merchant already verified.");
    assert_eq!(registry.get_verified_merchants(), &vec![merchant]);
}

#[test]
fn a_registered_merchant_is_in_exactly_one_list() {
    let admin1 = Address::account(1);
    let admin = Auth::signed_by(admin1);
    let merchants = [Address::account(2), Address::account(3), Address::account(4)];
    let mut registry = deploy_registry(admin1);
    let in_one_list = |registry: &Regisrty| {
        merchants.iter().all(|m| {
            let verified = registry.get_verified_merchants().contains(m);
            let unverified = registry.get_unverified_merchants().contains(m);
            let registered = registry.get_merchant_info(*m).is_some();
            if registered {
                verified != unverified
                    && registry.get_merchant_info(*m).unwrap().verified_status == verified
            } else {
                !verified && !unverified
            }
        })
    };
    assert!(in_one_list(&registry));
    for merchant in merchants {
        register(&mut registry, merchant).unwrap();
        assert!(in_one_list(&registry));
    }
    registry.verify_merchant(&admin, merchants[1]).unwrap();
    assert!(in_one_list(&registry));
    registry.verify_merchant(&admin, merchants[0]).unwrap();
    assert!(in_one_list(&registry));
    assert_eq!(registry.get_verified_merchants(), &vec![merchants[1], merchants[0]]);
    assert_eq!(registry.get_unverified_merchants(), &vec![merchants[2]]);
    registry
        .update_merchant_info(
            &admin,
            merchants[1],
            false,
            String::from("Ram"),
            String::from("1"),
            String::from("Shop"),
            String::from("Here"),
        )
        .unwrap();
    assert!(in_one_list(&registry));
    assert_eq!(registry.get_verified_merchants(), &vec![merchants[0]]);
    assert_eq!(registry.get_unverified_merchants(), &vec![merchants[2], merchants[1]]);
    registry.verify_merchant(&admin, merchants[1]).unwrap();
    assert!(in_one_list(&registry));
}
