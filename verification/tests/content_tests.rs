use creator_economy::bank::Bank;
use creator_economy::content::{
    calculate_creator_rewards, calculate_viewer_rewards, get_user_vine, Error, Event, Pallet,
    RewardsInfo, UserVines, Vine, NFT_PALLET_ACCOUNT, VINE_CREATED_REWARD_AMT,
    VINE_VIEWED_REWARD_AMT,
};
use creator_economy::issuance::{Pallet as UserPallet, User, NATIVE_CURRENCY_ID};

const CREATOR_ACCT: u64 = 10;
const VIEWER_ACCT: u64 = 20;
const POT_FUNDS: u128 = 1_000_000_000_000_000;

// Registers a creator and a viewer identity and funds the reward pot.
fn setup() -> (Pallet, UserPallet, Bank, u64, u64) {
    let mut users = UserPallet::new();
    let creator_id = users
        .create_user(CREATOR_ACCT, b"alice".to_vec(), vec![])
        .unwrap();
    let viewer_id = users
        .create_user(VIEWER_ACCT, b"bob".to_vec(), vec![])
        .unwrap();
    let mut bank = Bank::new();
    bank.deposit(NATIVE_CURRENCY_ID, NFT_PALLET_ACCOUNT, POT_FUNDS)
        .unwrap();
    (Pallet::new(), users, bank, creator_id, viewer_id)
}

fn post(
    content: &mut Pallet,
    bank: &mut Bank,
    users: &UserPallet,
    creator_id: u64,
) -> u64 {
    content
        .instant_vine_creation(
            bank,
            users,
            CREATOR_ACCT,
            creator_id,
            b"desc".to_vec(),
            b"https://example.invalid/v".to_vec(),
            b"thumb".to_vec(),
            None,
        )
        .unwrap()
}

#[test]
fn posting_content_pays_the_creation_reward() {
    let (mut content, users, mut bank, creator_id, _) = setup();
    let vine_id = post(&mut content, &mut bank, &users, creator_id);
    assert_eq!(vine_id, 1);
    assert_eq!(content.vine_count(), 1);
    assert_eq!(
        bank.free_balance(NATIVE_CURRENCY_ID, CREATOR_ACCT),
        VINE_CREATED_REWARD_AMT
    );
    assert_eq!(
        bank.free_balance(NATIVE_CURRENCY_ID, NFT_PALLET_ACCOUNT),
        POT_FUNDS - VINE_CREATED_REWARD_AMT
    );
    let rewards = content.get_user_rewards_info(creator_id).unwrap();
    assert_eq!(rewards.created_vine_rewards, Some(VINE_CREATED_REWARD_AMT));
    assert_eq!(rewards.viewed_vine_rewards, None);
    let entry = content.get_vines(1).unwrap();
    assert_eq!(entry.0, 0); // first lazily created collection
    assert_eq!(entry.1.email, creator_id);
    assert_eq!(entry.1.vine_creator, CREATOR_ACCT);
    assert_eq!(entry.1.view_count, 0);
    assert_eq!(entry.1.metadata, b"metadata".to_vec());
    assert_eq!(content.get_collection_id_by_user(creator_id), Some(0));
    match content.events().last().unwrap() {
        Event::VineCreated(email, class_id, vine) => {
            assert_eq!((*email, *class_id, *vine), (creator_id, 0, 1));
        }
        _ => panic!("expected a content-created event"),
    }
    let events = content.events();
    match &events[events.len() - 2] {
        Event::RewardAccrued(email, amount, _) => {
            assert_eq!((*email, *amount), (creator_id, VINE_CREATED_REWARD_AMT));
        }
        _ => panic!("expected a reward-accrued event"),
    }
}

#[test]
fn the_collection_is_created_once_per_creator() {
    let (mut content, users, mut bank, creator_id, _) = setup();
    let first = post(&mut content, &mut bank, &users, creator_id);
    let second = post(&mut content, &mut bank, &users, creator_id);
    assert_eq!((first, second), (1, 2));
    assert_eq!(content.get_vines(1).unwrap().0, 0);
    assert_eq!(content.get_vines(2).unwrap().0, 0);
    assert_eq!(
        content.get_user_rewards_info(creator_id).unwrap().created_vine_rewards,
        Some(2 * VINE_CREATED_REWARD_AMT)
    );
}

#[test]
fn posting_requires_a_registered_identity() {
    let (mut content, users, mut bank, _, _) = setup();
    let r = content.instant_vine_creation(
        &mut bank,
        &users,
        CREATOR_ACCT,
        99,
        vec![],
        vec![],
        vec![],
        None,
    );
    assert_eq!(r, Err(Error::UserDoesNotExist));
}

#[test]
fn posting_fails_without_reserve_funds() {
    let mut users = UserPallet::new();
    let creator_id = users.create_user(CREATOR_ACCT, b"alice".to_vec(), vec![]).unwrap();
    let mut bank = Bank::new(); // empty pot
    let mut content = Pallet::new();
    let r = content.instant_vine_creation(
        &mut bank,
        &users,
        CREATOR_ACCT,
        creator_id,
        vec![],
        vec![],
        vec![],
        None,
    );
    assert_eq!(r, Err(Error::InsufficientReserve));
    assert_eq!(content.vine_count(), 0);
}

#[test]
fn posting_into_anothers_collection_is_refused() {
    let (mut content, users, mut bank, creator_id, _) = setup();
    post(&mut content, &mut bank, &users, creator_id);
    // same identity, but a different account than the collection's owner
    let r = content.instant_vine_creation(
        &mut bank,
        &users,
        999,
        creator_id,
        vec![],
        vec![],
        vec![],
        None,
    );
    assert_eq!(r, Err(Error::NoPermission));
    assert_eq!(content.vine_count(), 1);
}

#[test]
fn a_view_rewards_viewer_and_creator_and_counts() {
    let (mut content, users, mut bank, creator_id, viewer_id) = setup();
    let vine_id = post(&mut content, &mut bank, &users, creator_id);
    let pot_before = bank.free_balance(NATIVE_CURRENCY_ID, NFT_PALLET_ACCOUNT);
    content
        .mark_vine_as_viwed(&mut bank, &users, VIEWER_ACCT, viewer_id, vine_id)
        .unwrap();
    let entry = content.get_vines(vine_id).unwrap();
    assert_eq!(entry.1.view_count, 1);
    assert!(entry.1.did_view);
    assert!(content.has_viewed(viewer_id, vine_id));
    assert_eq!(
        bank.free_balance(NATIVE_CURRENCY_ID, VIEWER_ACCT),
        VINE_VIEWED_REWARD_AMT
    );
    assert_eq!(
        bank.free_balance(NATIVE_CURRENCY_ID, CREATOR_ACCT),
        VINE_CREATED_REWARD_AMT + VINE_VIEWED_REWARD_AMT
    );
    assert_eq!(
        bank.free_balance(NATIVE_CURRENCY_ID, NFT_PALLET_ACCOUNT),
        pot_before - 2 * VINE_VIEWED_REWARD_AMT
    );
    let viewer_rewards = content.get_user_rewards_info(viewer_id).unwrap();
    assert_eq!(viewer_rewards.viewed_vine_rewards, Some(VINE_VIEWED_REWARD_AMT));
    assert_eq!(viewer_rewards.created_vine_rewards, None);
    let creator_rewards = content.get_user_rewards_info(creator_id).unwrap();
    assert_eq!(
        creator_rewards.created_vine_rewards,
        Some(VINE_CREATED_REWARD_AMT + VINE_VIEWED_REWARD_AMT)
    );
    match content.events().last().unwrap() {
        Event::VineViewed(email, class_id, vine) => {
            assert_eq!((*email, *class_id, *vine), (viewer_id, 0, vine_id));
        }
        _ => panic!("expected a viewed event"),
    }
    // a view accrues one reward to the viewer and one to the creator
    let events = content.events();
    match &events[events.len() - 3] {
        Event::RewardAccrued(email, amount, _) => {
            assert_eq!((*email, *amount), (viewer_id, VINE_VIEWED_REWARD_AMT));
        }
        _ => panic!("expected the viewer's reward-accrued event"),
    }
    match &events[events.len() - 2] {
        Event::RewardAccrued(email, amount, _) => {
            assert_eq!((*email, *amount), (creator_id, VINE_VIEWED_REWARD_AMT));
        }
        _ => panic!("expected the creator's reward-accrued event"),
    }
}

#[test]
fn a_second_view_by_the_same_pair_is_refused() {
    let (mut content, users, mut bank, creator_id, viewer_id) = setup();
    let vine_id = post(&mut content, &mut bank, &users, creator_id);
    content
        .mark_vine_as_viwed(&mut bank, &users, VIEWER_ACCT, viewer_id, vine_id)
        .unwrap();
    let viewer_rewards = content.get_user_rewards_info(viewer_id).unwrap();
    let viewer_balance = bank.free_balance(NATIVE_CURRENCY_ID, VIEWER_ACCT);
    let r = content.mark_vine_as_viwed(&mut bank, &users, VIEWER_ACCT, viewer_id, vine_id);
    assert_eq!(r, Err(Error::RewardsAlreadyReceived));
    // nothing changed on the replay
    assert_eq!(content.get_vines(vine_id).unwrap().1.view_count, 1);
    assert_eq!(content.get_user_rewards_info(viewer_id), Some(viewer_rewards));
    assert_eq!(bank.free_balance(NATIVE_CURRENCY_ID, VIEWER_ACCT), viewer_balance);
}

#[test]
fn a_creator_viewing_their_own_content_earns_nothing() {
    let (mut content, users, mut bank, creator_id, _) = setup();
    let vine_id = post(&mut content, &mut bank, &users, creator_id);
    let creator_balance = bank.free_balance(NATIVE_CURRENCY_ID, CREATOR_ACCT);
    let r = content.mark_vine_as_viwed(&mut bank, &users, CREATOR_ACCT, creator_id, vine_id);
    assert_eq!(r, Err(Error::CreatorCannotBeTheViewer));
    assert_eq!(content.get_vines(vine_id).unwrap().1.view_count, 0);
    assert!(!content.has_viewed(creator_id, vine_id));
    assert_eq!(bank.free_balance(NATIVE_CURRENCY_ID, CREATOR_ACCT), creator_balance);
}

#[test]
fn viewing_unknown_content_or_identity_fails() {
    let (mut content, users, mut bank, creator_id, viewer_id) = setup();
    let r = content.mark_vine_as_viwed(&mut bank, &users, VIEWER_ACCT, viewer_id, 5);
    assert_eq!(r, Err(Error::VineDoesNotExist));
    let vine_id = post(&mut content, &mut bank, &users, creator_id);
    let r = content.mark_vine_as_viwed(&mut bank, &users, 44, 99, vine_id);
    assert_eq!(r, Err(Error::UserDoesNotExist));
}

#[test]
fn two_viewers_each_earn_once() {
    let (mut content, mut users, mut bank, creator_id, viewer_id) = setup();
    let third_id = users.create_user(30, b"carol".to_vec(), vec![]).unwrap();
    let vine_id = post(&mut content, &mut bank, &users, creator_id);
    content
        .mark_vine_as_viwed(&mut bank, &users, VIEWER_ACCT, viewer_id, vine_id)
        .unwrap();
    content
        .mark_vine_as_viwed(&mut bank, &users, 30, third_id, vine_id)
        .unwrap();
    assert_eq!(content.get_vines(vine_id).unwrap().1.view_count, 2);
    assert_eq!(
        content.get_user_rewards_info(creator_id).unwrap().created_vine_rewards,
        Some(VINE_CREATED_REWARD_AMT + 2 * VINE_VIEWED_REWARD_AMT)
    );
}

#[test]
fn get_all_vines_snapshots_every_item() {
    let (mut content, users, mut bank, creator_id, _) = setup();
    post(&mut content, &mut bank, &users, creator_id);
    post(&mut content, &mut bank, &users, creator_id);
    content.get_all_vines().unwrap();
    let all = content.all_vines();
    assert_eq!(all.len(), 2);
    assert_eq!(all[0].vine_id, 1);
    assert_eq!(all[1].vine_id, 2);
    assert_eq!(all[0].email, creator_id);
    match content.events().last().unwrap() {
        Event::AllVinesStorageUpdated(n) => assert_eq!(*n, 2),
        _ => panic!("expected a storage-updated event"),
    }
}

fn sample_user(id: u64) -> User {
    User {
        id,
        name: b"u".to_vec(),
        profile_image: vec![],
        vines_count: None,
        is_following: false,
        accounts: vec![id],
        token_info: None,
    }
}

fn sample_vine(vine_id: u64, view_count: u64) -> Vine {
    Vine {
        email: 1,
        vine_id,
        vine_creator: 1,
        video_url: vec![],
        thumbnail_image: vec![],
        vine_description: vec![],
        view_count,
        share_count: 0,
        comment_count: 0,
        did_view: false,
        metadata: vec![],
    }
}

#[test]
fn per_user_listing_upserts_by_user_id() {
    let mut content = Pallet::new();
    let listing_a = UserVines {
        user: sample_user(1),
        created_vines: Some(vec![sample_vine(1, 0)]),
        watched_vines: None,
    };
    let listing_b = UserVines {
        user: sample_user(2),
        created_vines: None,
        watched_vines: None,
    };
    content.update_all_vine_storage_vec(listing_a);
    content.update_all_vine_storage_vec(listing_b);
    assert_eq!(content.vine_storage().len(), 2);
    let replacement = UserVines {
        user: sample_user(1),
        created_vines: Some(vec![sample_vine(1, 5), sample_vine(2, 0)]),
        watched_vines: None,
    };
    content.update_all_vine_storage_vec(replacement);
    assert_eq!(content.vine_storage().len(), 2);
    let stored = &content.vine_storage()[0];
    assert_eq!(stored.created_vines.as_ref().unwrap().len(), 2);
}

#[test]
fn get_user_vine_finds_the_listing_holding_the_id() {
    let listing_a = UserVines {
        user: sample_user(1),
        created_vines: Some(vec![sample_vine(1, 0)]),
        watched_vines: None,
    };
    let listing_b = UserVines {
        user: sample_user(2),
        created_vines: Some(vec![sample_vine(2, 0), sample_vine(3, 0)]),
        watched_vines: None,
    };
    let found = get_user_vine(vec![listing_a, listing_b], 3).unwrap();
    assert_eq!(found.user.id, 2);
    let empty = UserVines {
        user: sample_user(1),
        created_vines: None,
        watched_vines: None,
    };
    let r = get_user_vine(vec![empty], 3);
    assert_eq!(r.err(), Some(Error::VineDoesNotExist));
}

#[test]
fn watch_length_reward_is_all_or_nothing() {
    assert_eq!(calculate_viewer_rewards(30, 30), 1);
    assert_eq!(calculate_viewer_rewards(29, 30), 0);
}

#[test]
fn creator_reward_totals_view_counts() {
    let vines = vec![sample_vine(1, 3), sample_vine(2, 0), sample_vine(3, 39)];
    assert_eq!(calculate_creator_rewards(vines), 42);
    assert_eq!(calculate_creator_rewards(vec![]), 0);
}

#[test]
fn reward_totals_accumulate_per_source() {
    let mut info = RewardsInfo::new();
    assert_eq!(info.created_vine_rewards, None);
    info.set_created_vine_rewards(7);
    info.set_created_vine_rewards(5);
    info.set_viewed_vine_rewards(3);
    assert_eq!(info.created_vine_rewards, Some(12));
    assert_eq!(info.viewed_vine_rewards, Some(3));
}
