use localcoin::{
    Address, Auth, CampaignDetail, CampaignInfo, CampaignManagement, CampaignSummary, Error,
    Platform, MIN_CAMPAIGN_AMOUNT,
};

const REGISTRY: Address = Address { kind: localcoin::AddressKind::Contract, hi: 0, lo: 10 };
const ISSUANCE: Address = Address { kind: localcoin::AddressKind::Contract, hi: 0, lo: 11 };
const MANAGEMENT: Address = Address { kind: localcoin::AddressKind::Contract, hi: 0, lo: 12 };
const STABLE: Address = Address { kind: localcoin::AddressKind::Contract, hi: 0, lo: 13 };
const UNIT: i128 = 10_000_000;

struct World {
    ledger: Platform,
    super_admin: Address,
    merchant: Address,
    recipient: Address,
    creator: Address,
    token: Address,
}

/// A registry and a campaign manager that knows it.
fn deploy(super_admin: Address) -> Platform {
    let mut ledger = Platform::new(REGISTRY, ISSUANCE, MANAGEMENT).unwrap();
    ledger.registry_initialize(super_admin).unwrap();
    ledger.management_initialize(REGISTRY).unwrap();
    ledger
}

/// The whole platform: a verified merchant, a stable asset of which the
/// creator holds `funds`, and one issued token.
fn world(funds: i128) -> World {
    let super_admin = Address::account(1);
    let merchant = Address::account(2);
    let recipient = Address::account(3);
    let creator = Address::account(4);
    let mut ledger = Platform::new(REGISTRY, ISSUANCE, MANAGEMENT).unwrap();
    ledger.registry_initialize(super_admin).unwrap();
    ledger
        .merchant_registration(
            merchant,
            String::from("Ram"),
            String::from("+977-9841123321"),
            String::from("Medical"),
            String::from("Chhauni, Kathmandu"),
        )
        .unwrap();
    ledger.verify_merchant(super_admin, merchant).unwrap();
    assert_eq!(ledger.registry().get_super_admin(), Ok(super_admin));
    assert_eq!(ledger.registry().get_verified_merchants(), &vec![merchant]);

    ledger.deploy_token(STABLE).unwrap();
    ledger
        .initialize_token(STABLE, super_admin, 7, String::from("USDC Coin"), String::from("USDC"))
        .unwrap();
    ledger.mint(super_admin, STABLE, creator, funds).unwrap();
    assert_eq!(ledger.token(STABLE).unwrap().balance_of(creator), funds);

    ledger.issuance_initialize(REGISTRY).unwrap();
    ledger.management_initialize(REGISTRY).unwrap();
    ledger.issuance_set_campaign_management(super_admin, MANAGEMENT).unwrap();
    ledger.registry_set_campaign_management(super_admin, MANAGEMENT).unwrap();
    assert_eq!(ledger.registry().get_campaign_management(), Ok(MANAGEMENT));
    ledger.registry_set_issuance_management(super_admin, ISSUANCE).unwrap();
    assert_eq!(ledger.registry().get_issuance_management(), Ok(ISSUANCE));
    ledger.set_stable_coin_address(super_admin, STABLE).unwrap();

    let token = ledger
        .issue_new_token(
            super_admin,
            7,
            String::from("Token1"),
            String::from("TKN1"),
            vec![String::from("Medicine")],
            vec![merchant],
        )
        .unwrap();
    assert_eq!(ledger.registry().get_available_tokens(), &vec![token]);
    World { ledger, super_admin, merchant, recipient, creator, token }
}

fn create(world: &mut World, amount: i128) -> Result<Address, Error> {
    world.ledger.create_campaign(
        world.creator,
        String::from("Test campaign "),
        String::from("This is test camapaign"),
        1,
        world.token,
        amount,
        world.creator,
        String::from("Kathmandu"),
    )
}

fn stable_balance(world: &World, who: Address) -> i128 {
    world.ledger.get_balance_of_stable_coin(who).unwrap()
}

#[test]
fn test_test_valid_super_admin() {
    let super_admin = Address::account(1);
    let ledger = deploy(super_admin);
    assert_eq!(ledger.management_super_admin(), ledger.registry().get_super_admin());
    assert_eq!(ledger.management().get_super_admin(ledger.registry()), Ok(super_admin));
}

#[test]
fn test_test_double_initialize() {
    let super_admin = Address::account(1);
    let mut ledger = deploy(super_admin);
    let outcome = ledger.management_initialize(Address::contract(99));
    assert_eq!(outcome, Err(Error::AlreadyInitialized));
    assert_eq!(outcome.unwrap_err().message(), "Contract already initialized.");
    assert_eq!(ledger.management().get_registry(), Ok(REGISTRY));
}

#[test]
fn test_set_stable_coin() {
    let super_admin = Address::account(1);
    let stable_coin = Address::contract(20);
    let mut ledger = deploy(super_admin);
    assert_eq!(ledger.management().get_stable_coin().unwrap_err().message(), "Address not set.");
    assert_eq!(
        ledger.set_stable_coin_address(super_admin, stable_coin),
        Ok(())
    );
    assert_eq!(ledger.management().get_stable_coin(), Ok(stable_coin));
}

#[test]
fn test_set_stable_coin_fron_non_admin() {
    let super_admin = Address::account(1);
    let non_admin = Address::account(2);
    let stable_coin = Address::contract(20);
    let mut ledger = deploy(super_admin);
    assert_eq!(
        ledger.set_stable_coin_address(non_admin, stable_coin),
        Err(Error::Unauthorized)
    );
    assert_eq!(ledger.management().get_stable_coin(), Err(Error::AddressNotSet));
}

#[test]
fn test_valid_create_campaign_flow() {
    let mut world = world(1000 * UNIT);
    let (super_admin, merchant, recipient, creator, token) =
        (world.super_admin, world.merchant, world.recipient, world.creator, world.token);
    let amount: i128 = 100 * UNIT;
    let half_amount: i128 = 50 * UNIT;

    let campaign = create(&mut world, amount).unwrap();

    // 100 of the stable asset went from the creator into the escrow.
    assert_eq!(stable_balance(&world, creator), 900 * UNIT);
    assert_eq!(world.ledger.management().get_campaigns(), &vec![campaign]);
    let names = world.ledger.management().get_campaigns_name();
    assert_eq!(names.len(), 1);
    assert_eq!(names.get(campaign), Some(&String::from("Test campaign ")));
    assert_eq!(world.ledger.management().get_stable_coin(), Ok(STABLE));
    assert_eq!(stable_balance(&world, MANAGEMENT), amount);

    {
        let state = world.ledger.campaign(campaign).unwrap();
        assert_eq!(
            state.get_campaign_info(),
            Some(&CampaignInfo {
                name: String::from("Test campaign "),
                description: String::from("This is test camapaign"),
                no_of_recipients: 1,
                token_address: token,
                token_name: String::from("Token1"),
                creator,
                location: String::from("Kathmandu"),
            })
        );
        assert_eq!(state.get_token_address(), Ok(token));
        assert_eq!(state.get_campaign_management(), Ok(MANAGEMENT));
        assert_eq!(state.get_owner(), Ok(creator));
        assert_eq!(state.is_ended(), false);
    }
    assert_eq!(world.ledger.get_campaign_balance(campaign), Ok(amount));
    assert_eq!(world.ledger.registry().get_campaign_admin(campaign), Ok(creator));

    // Hand half of the tokens to a verified recipient.
    world
        .ledger
        .join_campaign(recipient, campaign, String::from("Bob"), recipient)
        .unwrap();
    world
        .ledger
        .verify_recipients(creator, campaign, &vec![String::from("Bob")])
        .unwrap();
    world
        .ledger
        .transfer_tokens_to_recipient(creator, campaign, recipient, half_amount)
        .unwrap();
    assert_eq!(world.ledger.get_campaign_balance(campaign), Ok(half_amount));

    assert_eq!(
        world.ledger.management().get_creator_campaigns(creator),
        Some(&vec![CampaignDetail {
            campaign,
            token,
            token_minted: amount,
            info: CampaignSummary {
                name: String::from("Test campaign "),
                description: String::from("This is test camapaign"),
                no_of_recipients: 1,
            },
        }])
    );

    // The creator ends the campaign and gets the unspent half back.
    assert_eq!(world.ledger.end_campaign(creator, campaign, creator), Ok(()));
    assert_eq!(stable_balance(&world, creator), 950 * UNIT);
    assert_eq!(stable_balance(&world, MANAGEMENT), half_amount);
    assert_eq!(world.ledger.campaign(campaign).unwrap().is_ended(), true);
    assert_eq!(world.ledger.get_campaign_balance(campaign), Ok(0));

    // The recipient spends at the merchant.
    assert_eq!(world.ledger.token(token).unwrap().balance_of(recipient), half_amount);
    world
        .ledger
        .transfer(recipient, token, recipient, merchant, half_amount)
        .unwrap();
    assert_eq!(world.ledger.token(token).unwrap().balance_of(recipient), 0);
    assert_eq!(world.ledger.token(token).unwrap().balance_of(merchant), half_amount);
    assert_eq!(world.ledger.token(token).unwrap().total_supply(), half_amount);
    assert_eq!(stable_balance(&world, super_admin), 0);

    // The merchant has its tokens settled.
    assert_eq!(
        world.ledger.request_campaign_settlement(
            merchant,
            merchant,
            half_amount,
            token
        ),
        Ok(())
    );
    assert_eq!(world.ledger.token(token).unwrap().balance_of(merchant), 0);
    assert_eq!(world.ledger.token(token).unwrap().total_supply(), 0);
    assert_eq!(world.ledger.token(token).unwrap().total_burned(), amount);
    assert_eq!(stable_balance(&world, MANAGEMENT), 0);
    assert_eq!(stable_balance(&world, super_admin), half_amount);
}

#[test]
fn test_create_campaign_with_less_than_100_usdc() {
    let super_admin = Address::account(1);
    let creator = Address::account(4);
    let token_address = Address::contract(21);
    let mut ledger = deploy(super_admin);
    let outcome = ledger.create_campaign(
        creator,
        String::from("Test campaign "),
        String::from("This is test camapaign"),
        1,
        token_address,
        10 * UNIT,
        creator,
        String::from("Kathmandu"),
    );
    assert_eq!(outcome, Err(Error::AmountBelowMinimum));
    assert_eq!(outcome.unwrap_err().message(), "Amount cannot be less than 100 USDC.");
}

#[test]
fn test_request_settlement_of_invalid_token() {
    let super_admin = Address::account(1);
    let merchant = Address::account(2);
    let token_address = Address::contract(21);
    let mut ledger = deploy(super_admin);
    let outcome =
        ledger.request_campaign_settlement(merchant, merchant, 10, token_address);
    assert_eq!(outcome, Err(Error::InvalidToken));
    assert_eq!(outcome.unwrap_err().message(), "Invalid token passed in param.");
}

#[test]
fn test_request_settlement_of_0_token_amount() {
    let super_admin = Address::account(1);
    let merchant = Address::account(2);
    let token_address = Address::contract(21);
    let mut ledger = deploy(super_admin);
    let outcome =
        ledger.request_campaign_settlement(merchant, merchant, 0, token_address);
    assert_eq!(outcome, Err(Error::AmountNotPositive));
    assert_eq!(outcome.unwrap_err().message(), "Amount cannot be equal or less than zero.");
}

#[test]
fn test_request_settlement_of_negative_token_amount() {
    let super_admin = Address::account(1);
    let merchant = Address::account(2);
    let token_address = Address::contract(21);
    let mut ledger = deploy(super_admin);
    let outcome =
        ledger.request_campaign_settlement(merchant, merchant, -10, token_address);
    assert_eq!(outcome, Err(Error::AmountNotPositive));
    assert_eq!(outcome.unwrap_err().message(), "Amount cannot be equal or less than zero.");
}

#[test]
fn test_request_settlement_for_insufficient_amount() {
    let mut world = world(100);
    let (merchant, token) = (world.merchant, world.token);
    let outcome =
        world.ledger.request_campaign_settlement(merchant, merchant, 10, token);
    assert_eq!(outcome, Err(Error::InsufficientTokenForSettlement));
    assert_eq!(outcome.unwrap_err().message(), "Insufficient token for settlement.");
}

#[test]
fn test_end_invalid_campaign() {
    let mut world = world(1000 * UNIT);
    let creator = world.creator;
    let invalid_campaign = Address::contract(66);
    create(&mut world, 100 * UNIT).unwrap();
    let outcome = world.ledger.end_campaign(creator, invalid_campaign, creator);
    assert_eq!(outcome, Err(Error::CampaignNotFound));
    assert_eq!(outcome.unwrap_err().message(), "Campaign id not found in campaigns list.");
}

#[test]
fn test_invalid_owner_end_campaign() {
    let mut world = world(1000 * UNIT);
    let invalid_owner = Address::account(9);
    let campaign = create(&mut world, 100 * UNIT).unwrap();
    assert_eq!(world.ledger.campaign(campaign).unwrap().is_ended(), false);
    let outcome = world.ledger.end_campaign(invalid_owner, campaign, invalid_owner);
    assert_eq!(outcome, Err(Error::NotCampaignOwner));
    assert_eq!(outcome.unwrap_err().message(), "You are not a owner of the given campaign.");
    assert_eq!(world.ledger.campaign(campaign).unwrap().is_ended(), false);
    // Naming the owner does not help someone else.
    assert_eq!(
        world.ledger.end_campaign(invalid_owner, campaign, world.creator),
        Err(Error::Unauthorized)
    );
}

#[test]
fn test_double_end_campaign() {
    let mut world = world(1000 * UNIT);
    let creator = world.creator;
    assert_eq!(stable_balance(&world, creator), 1000 * UNIT);
    let campaign = create(&mut world, 100 * UNIT).unwrap();
    assert_eq!(stable_balance(&world, creator), 900 * UNIT);
    assert_eq!(world.ledger.campaign(campaign).unwrap().is_ended(), false);

    assert_eq!(world.ledger.end_campaign(creator, campaign, creator), Ok(()));
    assert_eq!(stable_balance(&world, creator), 1000 * UNIT);

    let outcome = world.ledger.end_campaign(creator, campaign, creator);
    assert_eq!(outcome, Err(Error::CampaignAlreadyEnded));
    assert_eq!(outcome.unwrap_err().message(), "Campaign already ended.");
    assert_eq!(stable_balance(&world, creator), 1000 * UNIT);
}

#[test]
fn test_end_campaign_with_balance_0() {
    let mut world = world(1000 * UNIT);
    let (creator, recipient) = (world.creator, world.recipient);
    let amount = 100 * UNIT;
    assert_eq!(stable_balance(&world, creator), 1000 * UNIT);
    let campaign = create(&mut world, amount).unwrap();
    assert_eq!(stable_balance(&world, creator), 900 * UNIT);
    assert_eq!(world.ledger.campaign(campaign).unwrap().is_ended(), false);
    assert_eq!(world.ledger.get_campaign_balance(campaign), Ok(amount));

    world
        .ledger
        .join_campaign(recipient, campaign, String::from("Bob"), recipient)
        .unwrap();
    world
        .ledger
        .verify_recipients(creator, campaign, &vec![String::from("Bob")])
        .unwrap();
    world
        .ledger
        .transfer_tokens_to_recipient(creator, campaign, recipient, amount)
        .unwrap();
    assert_eq!(world.ledger.get_campaign_balance(campaign), Ok(0));

    assert_eq!(world.ledger.end_campaign(creator, campaign, creator), Ok(()));
    assert_eq!(world.ledger.campaign(campaign).unwrap().is_ended(), true);
    assert_eq!(stable_balance(&world, creator), 900 * UNIT);
}

#[test]
fn a_campaign_that_is_ended_at_once_refunds_in_full() {
    let mut world = world(1000 * UNIT);
    let (creator, token) = (world.creator, world.token);
    let amount = 123 * UNIT + 4;
    let campaign = create(&mut world, amount).unwrap();
    assert_eq!(stable_balance(&world, creator), 1000 * UNIT - amount);
    assert_eq!(stable_balance(&world, MANAGEMENT), amount);
    assert_eq!(world.ledger.token(token).unwrap().total_supply(), amount);
    assert_eq!(world.ledger.end_campaign(creator, campaign, creator), Ok(()));
    assert_eq!(stable_balance(&world, creator), 1000 * UNIT);
    assert_eq!(stable_balance(&world, MANAGEMENT), 0);
    assert_eq!(world.ledger.get_campaign_balance(campaign), Ok(0));
    assert_eq!(world.ledger.campaign(campaign).unwrap().is_ended(), true);
    assert_eq!(world.ledger.token(token).unwrap().total_supply(), 0);
    assert_eq!(world.ledger.token(token).unwrap().total_burned(), amount);
}

#[test]
fn the_minimum_amount_is_enough() {
    let mut world = world(1000 * UNIT);
    assert_eq!(MIN_CAMPAIGN_AMOUNT, 100 * UNIT);
    assert_eq!(create(&mut world, MIN_CAMPAIGN_AMOUNT - 1), Err(Error::AmountBelowMinimum));
    assert_eq!(create(&mut world, 0), Err(Error::AmountBelowMinimum));
    assert_eq!(create(&mut world, -MIN_CAMPAIGN_AMOUNT), Err(Error::AmountBelowMinimum));
    assert!(world.ledger.management().get_campaigns().is_empty());
    assert_eq!(stable_balance(&world, world.creator), 1000 * UNIT);
    assert!(create(&mut world, MIN_CAMPAIGN_AMOUNT).is_ok());
    assert_eq!(stable_balance(&world, world.creator), 900 * UNIT);
}

#[test]
fn an_unverified_merchant_gets_no_settlement() {
    let mut world = world(1000 * UNIT);
    let (token, recipient, creator) = (world.token, world.recipient, world.creator);
    let newcomer = Address::account(7);
    world
        .ledger
        .merchant_registration(
            newcomer,
            String::from("Hari"),
            String::from("+977-1"),
            String::from("Grocery"),
            String::from("Patan"),
        )
        .unwrap();
    // The newcomer even holds tokens.
    let campaign = create(&mut world, 100 * UNIT).unwrap();
    world
        .ledger
        .join_campaign(recipient, campaign, String::from("Bob"), recipient)
        .unwrap();
    world
        .ledger
        .verify_recipients(creator, campaign, &vec![String::from("Bob")])
        .unwrap();
    world
        .ledger
        .transfer_tokens_to_recipient(creator, campaign, recipient, 40)
        .unwrap();
    world.ledger.transfer(recipient, token, recipient, newcomer, 40).unwrap();

    let outcome =
        world.ledger.request_campaign_settlement(newcomer, newcomer, 40, token);
    assert_eq!(outcome, Err(Error::CallerNotMerchant));
    assert_eq!(outcome.unwrap_err().message(), "Caller not merchant.");
    assert_eq!(world.ledger.token(token).unwrap().balance_of(newcomer), 40);

    world.ledger.verify_merchant(world.super_admin, newcomer).unwrap();
    assert_eq!(
        world.ledger.request_campaign_settlement(newcomer, newcomer, 40, token),
        Ok(())
    );
    assert_eq!(world.ledger.token(token).unwrap().balance_of(newcomer), 0);
    assert_eq!(stable_balance(&world, world.super_admin), 40);
}

#[test]
fn a_token_is_spent_only_at_its_merchants() {
    let mut world = world(1000 * UNIT);
    let (token, recipient, creator, merchant1) =
        (world.token, world.recipient, world.creator, world.merchant);
    let merchant2 = Address::account(8);
    let campaign = create(&mut world, 100 * UNIT).unwrap();
    world
        .ledger
        .join_campaign(recipient, campaign, String::from("Bob"), recipient)
        .unwrap();
    world
        .ledger
        .verify_recipients(creator, campaign, &vec![String::from("Bob")])
        .unwrap();
    world
        .ledger
        .transfer_tokens_to_recipient(creator, campaign, recipient, 60)
        .unwrap();

    let refused = world.ledger.recipient_to_merchant_transfer(recipient, token, recipient, merchant2, 25);
    assert_eq!(refused, Err(Error::MerchantNotAccepted));
    assert_eq!(
        refused.unwrap_err().message(),
        "This token's item is not accepted by the merchant."
    );
    assert_eq!(world.ledger.token(token).unwrap().balance_of(recipient), 60);
    assert_eq!(world.ledger.token(token).unwrap().balance_of(merchant2), 0);

    assert_eq!(
        world.ledger.recipient_to_merchant_transfer(recipient, token, recipient, merchant1, 25),
        Ok(())
    );
    assert_eq!(world.ledger.token(token).unwrap().balance_of(recipient), 35);
    assert_eq!(world.ledger.token(token).unwrap().balance_of(merchant1), 25);
    assert_eq!(
        world.ledger.recipient_to_merchant_transfer(
            merchant1,
            token,
            recipient,
            merchant1,
            1
        ),
        Err(Error::Unauthorized)
    );
    // The stable asset is bound to no issuance manager.
    assert_eq!(
        world.ledger.recipient_to_merchant_transfer(recipient, STABLE, recipient, merchant1, 1),
        Err(Error::IssuanceNotSet)
    );
    assert_eq!(
        world.ledger.recipient_to_merchant_transfer(recipient, campaign, recipient, merchant1, 1),
        Err(Error::ContractNotFound)
    );
}

#[test]
fn a_campaign_of_one_hands_out_all_it_has() {
    let mut world = world(1000 * UNIT);
    let (recipient, creator) = (world.recipient, world.creator);
    let amount = 100 * UNIT;
    let campaign = create(&mut world, amount).unwrap();
    world.ledger.join_campaign(recipient, campaign, String::from("Bob"), recipient).unwrap();
    world
        .ledger
        .verify_recipients(creator, campaign, &vec![String::from("Bob")])
        .unwrap();
    world
        .ledger
        .transfer_tokens_to_recipient(creator, campaign, recipient, amount)
        .unwrap();
    assert_eq!(world.ledger.get_campaign_balance(campaign), Ok(0));
    assert!(world.ledger.campaign(campaign).unwrap().recipient_limit_exceeded());
    // The same address joins again under a new username.
    assert_eq!(
        world.ledger.join_campaign(recipient, campaign, String::from("Bob the second"), recipient),
        Ok(())
    );
    assert_eq!(world.ledger.campaign(campaign).unwrap().get_recipients_status().len(), 2);
}

#[test]
fn creating_a_campaign_is_all_or_nothing() {
    let mut world = world(150 * UNIT);
    let (creator, token) = (world.creator, world.token);
    assert_eq!(
        world.ledger.create_campaign(
            Address::account(9),
            String::from("n"),
            String::from("d"),
            1,
            token,
            100 * UNIT,
            creator,
            String::from("l"),
        ),
        Err(Error::Unauthorized)
    );
    let unknown = world.ledger.create_campaign(
        creator,
        String::from("n"),
        String::from("d"),
        1,
        STABLE,
        100 * UNIT,
        creator,
        String::from("l"),
    );
    assert_eq!(unknown, Err(Error::InvalidToken));
    assert_eq!(create(&mut world, 151 * UNIT), Err(Error::InsufficientBalance));
    assert_eq!(stable_balance(&world, creator), 150 * UNIT);
    assert_eq!(stable_balance(&world, MANAGEMENT), 0);
    assert_eq!(world.ledger.token(token).unwrap().total_supply(), 0);
    assert!(world.ledger.management().get_campaigns().is_empty());
    assert_eq!(world.ledger.management().salt_counter(), 0);
    assert_eq!(world.ledger.management().get_creator_campaigns(creator), None);

    let first = create(&mut world, 100 * UNIT).unwrap();
    assert_eq!(world.ledger.management().salt_counter(), 1);
    assert_eq!(create(&mut world, 100 * UNIT), Err(Error::InsufficientBalance));
    assert_eq!(world.ledger.management().get_campaigns(), &vec![first]);
    assert_eq!(world.ledger.management().salt_counter(), 1);
    assert_eq!(world.ledger.token(token).unwrap().total_supply(), 100 * UNIT);
}

#[test]
fn campaigns_are_deployed_at_different_addresses() {
    let mut world = world(1000 * UNIT);
    let creator = world.creator;
    let first = create(&mut world, 100 * UNIT).unwrap();
    let second = create(&mut world, 200 * UNIT).unwrap();
    assert_ne!(first, second);
    assert_ne!(first, creator);
    assert_eq!(first, localcoin::deployment::derive_contract_address(creator, 0).unwrap());
    assert_eq!(second, localcoin::deployment::derive_contract_address(creator, 1).unwrap());
    assert_eq!(world.ledger.management().get_campaigns(), &vec![first, second]);
    assert_eq!(world.ledger.management().get_creator_campaigns(creator).unwrap().len(), 2);
    assert_eq!(world.ledger.get_campaign_balance(first), Ok(100 * UNIT));
    assert_eq!(world.ledger.get_campaign_balance(second), Ok(200 * UNIT));
    assert_eq!(stable_balance(&world, MANAGEMENT), 300 * UNIT);
    assert_eq!(world.ledger.token(world.token).unwrap().total_supply(), 300 * UNIT);
}

#[test]
fn a_settlement_needs_the_escrow() {
    let mut world = world(1000 * UNIT);
    let (token, merchant, recipient, creator, super_admin) =
        (world.token, world.merchant, world.recipient, world.creator, world.super_admin);
    let campaign = create(&mut world, 100 * UNIT).unwrap();
    world.ledger.join_campaign(recipient, campaign, String::from("Bob"), recipient).unwrap();
    world.ledger.verify_recipients(creator, campaign, &vec![String::from("Bob")]).unwrap();
    world.ledger.transfer_tokens_to_recipient(creator, campaign, recipient, 50).unwrap();
    world.ledger.recipient_to_merchant_transfer(recipient, token, recipient, merchant, 50).unwrap();
    // Only the campaign manager mints and burns the token.
    assert_eq!(world.ledger.mint(super_admin, token, merchant, 1), Err(Error::Unauthorized));
    assert_eq!(world.ledger.burn(creator, token, merchant, 1), Err(Error::Unauthorized));
    // The administrator of the backing asset takes the escrow away.
    world.ledger.burn(super_admin, STABLE, MANAGEMENT, 100 * UNIT - 49).unwrap();
    let outcome = world.ledger.request_campaign_settlement(merchant, merchant, 50, token);
    assert_eq!(outcome, Err(Error::InsufficientStableCoin));
    assert_eq!(
        outcome.unwrap_err().message(),
        "Insufficient stable coin in camapign management for settlement."
    );
    assert_eq!(world.ledger.token(token).unwrap().balance_of(merchant), 50);
    assert_eq!(world.ledger.token(token).unwrap().total_burned(), 0);
    assert_eq!(
        world.ledger.request_campaign_settlement(super_admin, merchant, 49, token),
        Err(Error::Unauthorized)
    );
    assert_eq!(world.ledger.request_campaign_settlement(merchant, merchant, 49, token), Ok(()));
    assert_eq!(stable_balance(&world, MANAGEMENT), 0);
    assert_eq!(stable_balance(&world, super_admin), 49);
    // Without escrow the campaign cannot refund what it still holds.
    assert_eq!(world.ledger.end_campaign(creator, campaign, creator), Err(Error::InsufficientBalance));
    assert_eq!(world.ledger.campaign(campaign).unwrap().is_ended(), false);
    assert_eq!(world.ledger.get_campaign_balance(campaign), Ok(100 * UNIT - 50));
}

#[test]
fn the_manager_decides_on_plain_values() {
    let super_admin = Address::account(1);
    let creator = Address::account(4);
    let merchant = Address::account(2);
    let token = Address::contract(21);
    let campaign = Address::contract(22);
    let admin = Auth::signed_by(super_admin);
    let mut manager = CampaignManagement::new();
    assert!(!manager.has_registry());
    let tokens = vec![token];
    assert_eq!(
        manager.can_create_campaign(&Auth::signed_by(creator), &tokens, token, 100 * UNIT, creator),
        Err(Error::AddressNotSet)
    );
    manager.initialize(REGISTRY).unwrap();
    assert_eq!(
        manager.create_campaign(
            &Auth::signed_by(creator),
            &tokens,
            campaign,
            String::from("n"),
            String::from("d"),
            3,
            token,
            100 * UNIT,
            creator
        ),
        Err(Error::AddressNotSet)
    );
    manager.set_stable_coin_address(&admin, super_admin, STABLE).unwrap();
    assert_eq!(manager.upgrade(&admin, super_admin), Ok(()));
    assert_eq!(manager.upgrade(&Auth::signed_by(creator), super_admin), Err(Error::Unauthorized));
    assert_eq!(manager.upgrade_localcoin(&admin, super_admin), Ok(()));
    assert_eq!(
        manager.upgrade_localcoin(&Auth::signed_by(creator), super_admin),
        Err(Error::Unauthorized)
    );
    assert_eq!(
        manager.create_campaign(
            &Auth::signed_by(creator),
            &tokens,
            campaign,
            String::from("n"),
            String::from("d"),
            3,
            token,
            100 * UNIT,
            creator
        ),
        Ok(0)
    );
    assert_eq!(manager.salt_counter(), 1);
    let owner = Auth::signed_by(creator);
    assert_eq!(manager.end_campaign(&owner, campaign, creator, Some(creator), false, 70), Ok(70));
    assert_eq!(
        manager.end_campaign(&owner, campaign, creator, Some(creator), true, 70),
        Err(Error::CampaignAlreadyEnded)
    );
    assert_eq!(
        manager.end_campaign(&owner, campaign, creator, Some(merchant), false, 70),
        Err(Error::NotCampaignOwner)
    );
    assert_eq!(
        manager.end_campaign(&owner, campaign, creator, None, false, 70),
        Err(Error::NotCampaignOwner)
    );
    assert_eq!(
        manager.end_campaign(&owner, token, creator, Some(creator), false, 70),
        Err(Error::CampaignNotFound)
    );
    let verified = vec![merchant];
    let asks = Auth::signed_by(merchant);
    assert_eq!(
        manager.request_campaign_settlement(&asks, merchant, 10, token, &tokens, &verified, 10, 10),
        Ok(())
    );
    assert_eq!(
        manager.request_campaign_settlement(&asks, merchant, 11, token, &tokens, &verified, 10, 11),
        Err(Error::InsufficientTokenForSettlement)
    );
    assert_eq!(
        manager.request_campaign_settlement(&asks, merchant, 10, token, &tokens, &verified, 10, 9),
        Err(Error::InsufficientStableCoin)
    );
    assert_eq!(
        manager.request_campaign_settlement(&asks, merchant, 10, token, &tokens, &Vec::new(), 10, 10),
        Err(Error::CallerNotMerchant)
    );
    assert_eq!(
        manager.request_campaign_settlement(&asks, merchant, 10, token, &Vec::new(), &verified, 10, 10),
        Err(Error::InvalidToken)
    );
}

#[test]
fn the_salts_run_out() {
    let super_admin = Address::account(1);
    let creator = Address::account(4);
    let token = Address::contract(21);
    let mut manager = CampaignManagement::new();
    manager.initialize(REGISTRY).unwrap();
    manager.set_stable_coin_address(&Auth::signed_by(super_admin), super_admin, STABLE).unwrap();
    let tokens = vec![token];
    let auth = Auth::signed_by(creator);
    for salt in 0..=255u32 {
        assert_eq!(
            manager.create_campaign(
                &auth,
                &tokens,
                Address::contract(1000 + salt as u128),
                String::from("n"),
                String::from("d"),
                1,
                token,
                100 * UNIT,
                creator
            ),
            Ok(salt)
        );
    }
    assert_eq!(manager.salt_counter(), 256);
    assert_eq!(
        manager.can_create_campaign(&auth, &tokens, token, 100 * UNIT, creator),
        Err(Error::SaltsExhausted)
    );
    assert_eq!(manager.get_campaigns().len(), 256);
}
