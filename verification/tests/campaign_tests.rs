use localcoin::{Address, Auth, Campaign, CampaignInfo, Error, LocalCoin, Platform};

const TOKEN: Address = Address { kind: localcoin::AddressKind::Contract, hi: 0, lo: 40 };
const CAMPAIGN: Address = Address { kind: localcoin::AddressKind::Contract, hi: 0, lo: 41 };

struct Setup {
    ledger: Platform,
    admin1: Address,
    creator: Address,
    recipient: Address,
    campaign_management: Address,
}

/// A ledger with an initialized token and a campaign that hands it out.
fn deploy_campaign() -> Setup {
    let admin1 = Address::account(1);
    let creator = Address::account(2);
    let recipient = Address::account(3);
    let campaign_management = Address::account(30);
    let mut ledger =
        Platform::new(Address::contract(10), Address::contract(11), Address::contract(12)).unwrap();
    ledger.deploy_token(TOKEN).unwrap();
    ledger
        .initialize_token(TOKEN, admin1, 7, String::from("TEST"), String::from("TST"))
        .unwrap();
    ledger.deploy_campaign(CAMPAIGN).unwrap();
    set_info(&mut ledger, creator, campaign_management).unwrap();
    Setup { ledger, admin1, creator, recipient, campaign_management }
}

fn set_info(ledger: &mut Platform, creator: Address, campaign_management: Address) -> Result<(), Error> {
    ledger.set_campaign_info(
        CAMPAIGN,
        String::from("Test campaign "),
        String::from("This is test camapaign"),
        1,
        TOKEN,
        creator,
        campaign_management,
        String::from("Kathmandu"),
    )
}

fn campaign(setup: &Setup) -> &Campaign {
    setup.ledger.campaign(CAMPAIGN).unwrap()
}

#[test]
fn test_set_campaign_info() {
    let setup = deploy_campaign();
    let campaign = campaign(&setup);

    assert_eq!(
        campaign.get_campaign_info(),
        Some(&CampaignInfo {
            name: String::from("Test campaign "),
            description: String::from("This is test camapaign"),
            no_of_recipients: 1,
            token_address: TOKEN,
            token_name: String::from("TEST"),
            creator: setup.creator,
            location: String::from("Kathmandu"),
        })
    );
    assert_eq!(campaign.get_owner(), Ok(setup.creator));
    assert_eq!(campaign.get_token_address(), Ok(TOKEN));
    assert_eq!(campaign.get_campaign_management(), Ok(setup.campaign_management));
    assert_eq!(campaign.is_ended(), false);
}

#[test]
fn test_double_set_campaign_info() {
    let mut setup = deploy_campaign();
    let outcome = set_info(&mut setup.ledger, Address::account(9), Address::contract(31));
    assert_eq!(outcome, Err(Error::CampaignInfoAlreadySet));
    assert_eq!(outcome.unwrap_err().message(), "Campaign info already set.");
    assert_eq!(campaign(&setup).get_owner(), Ok(setup.creator));
    assert_eq!(campaign(&setup).get_campaign_management(), Ok(setup.campaign_management));
}

#[test]
fn test_transfer_token_to_recipient() {
    let mut setup = deploy_campaign();
    let recipient = setup.recipient;
    let amount: i128 = 10;

    assert_eq!(
        setup.ledger.mint(setup.admin1, TOKEN, CAMPAIGN, 100),
        Ok(())
    );
    assert_eq!(campaign(&setup).get_amount_received(recipient), 0);

    assert_eq!(
        setup.ledger.join_campaign(recipient, CAMPAIGN, String::from("Bob"), recipient),
        Ok(())
    );
    let roster = campaign(&setup).get_recipients_status();
    assert_eq!(roster.len(), 1);
    assert_eq!(roster.get(&String::from("Bob")), Some(&(false, recipient)));

    let usernames = vec![String::from("Bob")];
    assert_eq!(setup.ledger.verify_recipients(setup.creator, CAMPAIGN, &usernames), Ok(()));
    let roster = campaign(&setup).get_recipients_status();
    assert_eq!(roster.len(), 1);
    assert_eq!(roster.get(&String::from("Bob")), Some(&(true, recipient)));

    assert_eq!(campaign(&setup).get_verified_recipients(), &vec![recipient]);
    assert_eq!(campaign(&setup).recipient_limit_exceeded(), true);

    assert_eq!(
        setup.ledger.transfer_tokens_to_recipient(setup.creator, CAMPAIGN, recipient, amount),
        Ok(())
    );
    assert_eq!(campaign(&setup).get_amount_received(recipient), amount);

    assert_eq!(
        setup.ledger.transfer_tokens_to_recipient(setup.creator, CAMPAIGN, recipient, amount),
        Ok(())
    );
    assert_eq!(campaign(&setup).get_amount_received(recipient), amount + amount);
    assert_eq!(setup.ledger.token(TOKEN).unwrap().balance_of(recipient), 20);
    assert_eq!(setup.ledger.get_campaign_balance(CAMPAIGN), Ok(80));
}

#[test]
fn test_join_campaign_twice() {
    let mut setup = deploy_campaign();
    let recipient = setup.recipient;

    assert_eq!(
        setup.ledger.join_campaign(recipient, CAMPAIGN, String::from("Bob"), recipient),
        Ok(())
    );
    assert_eq!(
        campaign(&setup).get_recipients_status().get(&String::from("Bob")),
        Some(&(false, recipient))
    );
    let outcome = setup.ledger.join_campaign(recipient, CAMPAIGN, String::from("Bob"), recipient);
    assert_eq!(outcome, Err(Error::CampaignAlreadyJoined));
    assert_eq!(outcome.unwrap_err().message(), "Campaign already joined.");
}

#[test]
fn test_verify_non_existing_recipient() {
    let mut setup = deploy_campaign();
    let usernames = vec![String::from("Bob")];
    let outcome = setup.ledger.verify_recipients(setup.creator, CAMPAIGN, &usernames);
    assert_eq!(outcome, Err(Error::UsernameNotJoined));
    assert_eq!(
        outcome.unwrap_err().message(),
        "Given list contains username thet has't joined campaign."
    );
}

#[test]
fn test_verify_verified_recipient() {
    let mut setup = deploy_campaign();
    let recipient = setup.recipient;
    setup
        .ledger
        .join_campaign(recipient, CAMPAIGN, String::from("Bob"), recipient)
        .unwrap();
    assert_eq!(
        campaign(&setup).get_recipients_status().get(&String::from("Bob")),
        Some(&(false, recipient))
    );

    let usernames = vec![String::from("Bob")];
    assert_eq!(setup.ledger.verify_recipients(setup.creator, CAMPAIGN, &usernames), Ok(()));
    let outcome = setup.ledger.verify_recipients(setup.creator, CAMPAIGN, &usernames);
    assert_eq!(outcome, Err(Error::RecipientAlreadyVerified));
    assert_eq!(
        outcome.unwrap_err().message(),
        "Given list contains already verified username."
    );
    assert_eq!(campaign(&setup).get_verified_recipients(), &vec![recipient]);
}

#[test]
fn test_transfer_token_to_unverified_recipient() {
    let mut setup = deploy_campaign();
    let recipient = setup.recipient;
    let outcome =
        setup.ledger.transfer_tokens_to_recipient(setup.creator, CAMPAIGN, recipient, 10);
    assert_eq!(outcome, Err(Error::RecipientNotVerified));
    assert_eq!(outcome.unwrap_err().message(), "Recipient not verified.");
}

#[test]
fn test_transfer_token_to_recipient_from_non_campaign_creator() {
    let mut setup = deploy_campaign();
    let recipient = setup.recipient;
    let non_campaign_creator = Address::account(8);
    setup
        .ledger
        .join_campaign(recipient, CAMPAIGN, String::from("Bob"), recipient)
        .unwrap();
    setup
        .ledger
        .verify_recipients(setup.creator, CAMPAIGN, &vec![String::from("Bob")])
        .unwrap();
    setup.ledger.mint(setup.admin1, TOKEN, CAMPAIGN, 100).unwrap();
    assert_eq!(
        setup.ledger.transfer_tokens_to_recipient(
            non_campaign_creator,
            CAMPAIGN,
            recipient,
            10
        ),
        Err(Error::Unauthorized)
    );
    assert_eq!(campaign(&setup).get_amount_received(recipient), 0);
    assert_eq!(setup.ledger.get_campaign_balance(CAMPAIGN), Ok(100));
}

#[test]
fn an_unverified_recipient_gets_nothing_whatever_the_amount() {
    let mut setup = deploy_campaign();
    let recipient = setup.recipient;
    setup.ledger.mint(setup.admin1, TOKEN, CAMPAIGN, 100).unwrap();
    setup
        .ledger
        .join_campaign(recipient, CAMPAIGN, String::from("Bob"), recipient)
        .unwrap();
    for amount in [10, 0, -5, i128::MAX, i128::MIN] {
        assert_eq!(
            setup.ledger.transfer_tokens_to_recipient(setup.creator, CAMPAIGN, recipient, amount),
            Err(Error::RecipientNotVerified)
        );
    }
    assert_eq!(setup.ledger.get_campaign_balance(CAMPAIGN), Ok(100));
}

#[test]
fn the_campaign_books_an_amount_that_the_token_refuses_to_move() {
    let mut setup = deploy_campaign();
    let recipient = setup.recipient;
    let owner = Auth::signed_by(setup.creator);
    setup.ledger.mint(setup.admin1, TOKEN, CAMPAIGN, 100).unwrap();
    setup
        .ledger
        .join_campaign(recipient, CAMPAIGN, String::from("Bob"), recipient)
        .unwrap();
    setup.ledger.verify_recipients(setup.creator, CAMPAIGN, &vec![String::from("Bob")]).unwrap();
    // On its own the campaign does not examine the amount.
    let mut alone = Campaign::new();
    alone
        .set_campaign_info(
            String::from("n"),
            String::from("d"),
            1,
            TOKEN,
            String::from("TEST"),
            setup.creator,
            setup.campaign_management,
            String::from("l"),
        )
        .unwrap();
    alone.join_campaign(&Auth::signed_by(recipient), String::from("Bob"), recipient).unwrap();
    alone.verify_recipients(&owner, &vec![String::from("Bob")]).unwrap();
    assert_eq!(alone.transfer_tokens_to_recipient(&owner, recipient, 0), Ok(()));
    assert_eq!(alone.transfer_tokens_to_recipient(&owner, recipient, -5), Ok(()));
    assert_eq!(alone.get_amount_received(recipient), -5);
    // On the ledger the token refuses a negative amount, and nothing is booked.
    assert_eq!(
        setup.ledger.transfer_tokens_to_recipient(setup.creator, CAMPAIGN, recipient, -5),
        Err(Error::NegativeAmount)
    );
    assert_eq!(
        setup.ledger.transfer_tokens_to_recipient(setup.creator, CAMPAIGN, recipient, 101),
        Err(Error::InsufficientBalance)
    );
    assert_eq!(campaign(&setup).get_amount_received(recipient), 0);
    assert_eq!(setup.ledger.transfer_tokens_to_recipient(setup.creator, CAMPAIGN, recipient, 0), Ok(()));
    assert_eq!(setup.ledger.get_campaign_balance(CAMPAIGN), Ok(100));
}

#[test]
fn the_booked_total_cannot_leave_its_range() {
    let recipient = Address::account(3);
    let creator = Address::account(2);
    let owner = Auth::signed_by(creator);
    let mut alone = Campaign::new();
    alone
        .set_campaign_info(
            String::from("n"),
            String::from("d"),
            1,
            TOKEN,
            String::from("TEST"),
            creator,
            Address::contract(30),
            String::from("l"),
        )
        .unwrap();
    alone.join_campaign(&Auth::signed_by(recipient), String::from("Bob"), recipient).unwrap();
    alone.verify_recipients(&owner, &vec![String::from("Bob")]).unwrap();
    assert_eq!(alone.transfer_tokens_to_recipient(&owner, recipient, i128::MAX), Ok(()));
    assert_eq!(
        alone.transfer_tokens_to_recipient(&owner, recipient, 1),
        Err(Error::ArithmeticOverflow)
    );
    assert_eq!(alone.get_amount_received(recipient), i128::MAX);
}

#[test]
fn a_username_joins_once_but_an_address_may_join_again() {
    let mut setup = deploy_campaign();
    let recipient = setup.recipient;
    let other = Address::account(4);
    setup.ledger.join_campaign(recipient, CAMPAIGN, String::from("Bob"), recipient).unwrap();
    assert_eq!(
        setup.ledger.join_campaign(other, CAMPAIGN, String::from("Bob"), other),
        Err(Error::CampaignAlreadyJoined)
    );
    assert_eq!(
        setup.ledger.join_campaign(recipient, CAMPAIGN, String::from("Bobby"), recipient),
        Ok(())
    );
    assert_eq!(
        setup.ledger.join_campaign(other, CAMPAIGN, String::from("Eve"), recipient),
        Err(Error::Unauthorized)
    );
    let roster = campaign(&setup).get_recipients_status();
    assert_eq!(roster.len(), 2);
    assert_eq!(roster.get(&String::from("Bob")), Some(&(false, recipient)));
    assert_eq!(roster.get(&String::from("Bobby")), Some(&(false, recipient)));
    assert_eq!(roster.get(&String::from("Eve")), None);
}

#[test]
fn a_batch_is_verified_in_full_or_not_at_all() {
    let mut setup = deploy_campaign();
    let alice = Address::account(5);
    let bob = Address::account(6);
    setup.ledger.join_campaign(alice, CAMPAIGN, String::from("Alice"), alice).unwrap();
    setup.ledger.join_campaign(bob, CAMPAIGN, String::from("Bob"), bob).unwrap();
    setup.ledger.join_campaign(bob, CAMPAIGN, String::from("Robert"), bob).unwrap();

    // The second username never joined: the first one stays unverified.
    let batch = vec![String::from("Alice"), String::from("Carol")];
    assert_eq!(
        setup.ledger.verify_recipients(setup.creator, CAMPAIGN, &batch),
        Err(Error::UsernameNotJoined)
    );
    assert!(campaign(&setup).get_verified_recipients().is_empty());
    assert_eq!(
        campaign(&setup).get_recipients_status().get(&String::from("Alice")),
        Some(&(false, alice))
    );

    // Two usernames of one address: the second one finds the address verified.
    let batch = vec![String::from("Bob"), String::from("Robert")];
    assert_eq!(
        setup.ledger.verify_recipients(setup.creator, CAMPAIGN, &batch),
        Err(Error::RecipientAlreadyVerified)
    );
    assert!(campaign(&setup).get_verified_recipients().is_empty());

    // The same username twice.
    let batch = vec![String::from("Alice"), String::from("Alice")];
    assert_eq!(
        setup.ledger.verify_recipients(setup.creator, CAMPAIGN, &batch),
        Err(Error::RecipientAlreadyVerified)
    );

    // The first refusal in the order of the batch is the batch's.
    let batch = vec![String::from("Carol"), String::from("Bob"), String::from("Robert")];
    assert_eq!(
        setup.ledger.verify_recipients(setup.creator, CAMPAIGN, &batch),
        Err(Error::UsernameNotJoined)
    );

    assert_eq!(
        setup.ledger.verify_recipients(alice, CAMPAIGN, &batch),
        Err(Error::Unauthorized)
    );

    let batch = vec![String::from("Bob"), String::from("Alice")];
    assert_eq!(setup.ledger.verify_recipients(setup.creator, CAMPAIGN, &batch), Ok(()));
    assert_eq!(campaign(&setup).get_verified_recipients(), &vec![bob, alice]);
    let roster = campaign(&setup).get_recipients_status();
    assert_eq!(roster.get(&String::from("Alice")), Some(&(true, alice)));
    assert_eq!(roster.get(&String::from("Bob")), Some(&(true, bob)));
    assert_eq!(roster.get(&String::from("Robert")), Some(&(false, bob)));
    // The capacity of one is advisory.
    assert!(campaign(&setup).recipient_limit_exceeded());
    assert_eq!(setup.ledger.verify_recipients(setup.creator, CAMPAIGN, &Vec::new()), Ok(()));
}

#[test]
fn the_limit_is_reached_with_as_many_recipients_as_declared() {
    let creator = Address::account(2);
    let owner = Auth::signed_by(creator);
    let mut alone = Campaign::new();
    alone
        .set_campaign_info(
            String::from("n"),
            String::from("d"),
            2,
            TOKEN,
            String::from("TEST"),
            creator,
            Address::contract(30),
            String::from("l"),
        )
        .unwrap();
    assert!(!alone.recipient_limit_exceeded());
    let alice = Address::account(5);
    let bob = Address::account(6);
    alone.join_campaign(&Auth::signed_by(alice), String::from("Alice"), alice).unwrap();
    alone.join_campaign(&Auth::signed_by(bob), String::from("Bob"), bob).unwrap();
    alone.verify_recipients(&owner, &vec![String::from("Alice")]).unwrap();
    assert!(!alone.recipient_limit_exceeded());
    alone.verify_recipients(&owner, &vec![String::from("Bob")]).unwrap();
    assert!(alone.recipient_limit_exceeded());
}

#[test]
fn only_the_campaign_manager_ends_a_campaign() {
    let mut setup = deploy_campaign();
    let manager = setup.campaign_management;
    assert_eq!(
        setup.ledger.set_campaign_end_status(setup.creator, CAMPAIGN, true),
        Err(Error::Unauthorized)
    );
    assert!(!campaign(&setup).is_ended());
    assert_eq!(setup.ledger.set_campaign_end_status(manager, CAMPAIGN, true), Ok(()));
    assert!(campaign(&setup).is_ended());
    assert_eq!(setup.ledger.set_campaign_end_status(manager, CAMPAIGN, false), Ok(()));
    assert!(!campaign(&setup).is_ended());
}

#[test]
fn an_untouched_campaign_reads_as_empty() {
    let mut campaign = Campaign::new();
    assert!(!campaign.has_administrator());
    assert!(!campaign.is_ended());
    assert_eq!(campaign.get_campaign_info(), None);
    let missing = campaign.get_owner();
    assert_eq!(missing, Err(Error::OwnerNotSet));
    assert_eq!(missing.unwrap_err().message(), "Owner address not set.");
    assert_eq!(campaign.get_token_address().unwrap_err().message(), "Token address not set.");
    assert_eq!(
        campaign.get_campaign_management().unwrap_err().message(),
        "Camapign management address not set."
    );
    assert_eq!(campaign.get_amount_received(Address::account(1)), 0);
    assert!(campaign.get_verified_recipients().is_empty());
    assert_eq!(campaign.get_recipients_status().len(), 0);
    let anyone = Auth::signed_by(Address::account(1));
    assert_eq!(campaign.verify_recipients(&anyone, &Vec::new()), Err(Error::OwnerNotSet));
    assert_eq!(
        campaign.transfer_tokens_to_recipient(&anyone, Address::account(1), 1),
        Err(Error::OwnerNotSet)
    );
    assert_eq!(
        campaign.set_campaign_end_status(&anyone, true),
        Err(Error::CampaignManagementNotSet)
    );
    let token = LocalCoin::new();
    assert_eq!(
        campaign.get_campaign_balance(CAMPAIGN, &token),
        Err(Error::TokenAddressNotSet)
    );
}

#[test]
fn a_campaign_needs_its_contracts() {
    let mut ledger =
        Platform::new(Address::contract(10), Address::contract(11), Address::contract(12)).unwrap();
    let creator = Address::account(2);
    assert_eq!(
        set_info(&mut ledger, creator, Address::contract(30)),
        Err(Error::ContractNotFound)
    );
    ledger.deploy_campaign(CAMPAIGN).unwrap();
    assert_eq!(
        set_info(&mut ledger, creator, Address::contract(30)),
        Err(Error::ContractNotFound)
    );
    ledger.deploy_token(TOKEN).unwrap();
    assert_eq!(
        set_info(&mut ledger, creator, Address::contract(30)),
        Err(Error::TokenNotInitialized)
    );
    assert_eq!(ledger.get_campaign_balance(CAMPAIGN), Err(Error::TokenAddressNotSet));
    assert_eq!(ledger.get_campaign_balance(TOKEN), Err(Error::ContractNotFound));
    assert_eq!(
        ledger.join_campaign(creator, TOKEN, String::from("Bob"), creator),
        Err(Error::ContractNotFound)
    );
    assert_eq!(ledger.deploy_campaign(CAMPAIGN), Err(Error::ContractAlreadyExists));
    assert_eq!(ledger.deploy_campaign(TOKEN), Err(Error::ContractAlreadyExists));
    assert_eq!(ledger.deploy_token(CAMPAIGN), Err(Error::ContractAlreadyExists));
    assert_eq!(ledger.deploy_token(Address::contract(10)), Err(Error::ContractAlreadyExists));
}
