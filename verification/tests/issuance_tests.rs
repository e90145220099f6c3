use creator_economy::bank::Bank;
use creator_economy::curves::CurveType;
use creator_economy::issuance::{
    token_account, Error, Event, Pallet, CREATOR_ASSET_DEPOSIT, NATIVE_CURRENCY_ID, PALLET_ACCOUNT,
};

const CREATOR: u64 = 10;
const BUYER: u64 = 20;
const TOKEN: u64 = 77;

fn setup_with_user() -> (Pallet, Bank) {
    let mut pallet = Pallet::new();
    let mut bank = Bank::new();
    bank.deposit(NATIVE_CURRENCY_ID, CREATOR, CREATOR_ASSET_DEPOSIT)
        .unwrap();
    let id = pallet
        .create_user(CREATOR, b"alice".to_vec(), b"img".to_vec())
        .unwrap();
    assert_eq!(id, 1);
    (pallet, bank)
}

fn create_token(pallet: &mut Pallet, bank: &mut Bank, curve: CurveType, max_supply: u128) {
    pallet
        .create_user_token(
            bank,
            CREATOR,
            1,
            TOKEN,
            curve,
            b"tok".to_vec(),
            b"TOK".to_vec(),
            12,
            max_supply,
        )
        .unwrap();
}

#[test]
fn create_user_assigns_sequential_ids() {
    let mut pallet = Pallet::new();
    assert_eq!(pallet.create_user(10, b"alice".to_vec(), vec![]), Ok(1));
    assert_eq!(pallet.create_user(11, b"bob".to_vec(), vec![]), Ok(2));
    assert_eq!(pallet.next_user_id(), 2);
    let alice = pallet.users(1).unwrap();
    assert_eq!(alice.id, 1);
    assert_eq!(alice.name, b"alice".to_vec());
    assert_eq!(alice.accounts, vec![10]);
    assert!(alice.token_info.is_none());
    assert!(pallet.users(3).is_none());
    match &pallet.events()[0] {
        Event::UserCreated(id, name) => {
            assert_eq!(*id, 1);
            assert_eq!(name, &b"alice".to_vec());
        }
        _ => panic!("expected a user-created event"),
    }
}

#[test]
fn create_user_token_mints_existence_balance() {
    let (mut pallet, mut bank) = setup_with_user();
    create_token(&mut pallet, &mut bank, CurveType::Exponential, 1000);
    assert_eq!(bank.total_issuance(TOKEN), 2);
    assert_eq!(bank.free_balance(TOKEN, PALLET_ACCOUNT), 2);
    assert_eq!(pallet.next_token_id(), 1);
    let info = pallet.token_storage(TOKEN).unwrap();
    assert_eq!(info.token_id, TOKEN);
    assert_eq!(info.curve_id, 1);
    assert_eq!(info.creator, CREATOR);
    assert_eq!(info.max_supply, 1000);
    assert_eq!(info.token_name, b"tok".to_vec());
    let user = pallet.users(1).unwrap();
    assert!(user.token_info.is_some());
}

#[test]
fn create_user_token_requires_registered_user() {
    let mut pallet = Pallet::new();
    let mut bank = Bank::new();
    let r = pallet.create_user_token(
        &mut bank,
        CREATOR,
        1,
        TOKEN,
        CurveType::Exponential,
        vec![],
        vec![],
        12,
        1000,
    );
    assert_eq!(r, Err(Error::UserDoesNotExist));
}

#[test]
fn create_user_token_requires_reservable_deposit() {
    let mut pallet = Pallet::new();
    let mut bank = Bank::new();
    pallet
        .create_user(CREATOR, b"alice".to_vec(), vec![])
        .unwrap();
    let r = pallet.create_user_token(
        &mut bank,
        CREATOR,
        1,
        TOKEN,
        CurveType::Exponential,
        vec![],
        vec![],
        12,
        1000,
    );
    assert_eq!(r, Err(Error::InsufficientBalanceToReserve));
}

#[test]
fn create_user_token_rejects_existing_issuance() {
    let (mut pallet, mut bank) = setup_with_user();
    create_token(&mut pallet, &mut bank, CurveType::Exponential, 1000);
    let r = pallet.create_user_token(
        &mut bank,
        CREATOR,
        1,
        TOKEN,
        CurveType::Linear,
        vec![],
        vec![],
        12,
        1000,
    );
    assert_eq!(r, Err(Error::TokenAlreadyExists));
    // the native currency always counts as existing
    let r = pallet.create_user_token(
        &mut bank,
        CREATOR,
        1,
        NATIVE_CURRENCY_ID,
        CurveType::Linear,
        vec![],
        vec![],
        12,
        1000,
    );
    assert_eq!(r, Err(Error::TokenAlreadyExists));
}

#[test]
fn buy_charges_the_integral_over_the_minted_range() {
    let (mut pallet, mut bank) = setup_with_user();
    create_token(&mut pallet, &mut bank, CurveType::Exponential, 1000);
    // cost of minting supply 2 -> 12 on x^11 * 10 / 11
    let cost: u128 = 675462155170 - 1861;
    bank.deposit(NATIVE_CURRENCY_ID, BUYER, cost + 5).unwrap();
    let r = pallet.buy_user_token(&mut bank, BUYER, TOKEN, 10);
    assert_eq!(r, Ok(cost));
    assert_eq!(bank.total_issuance(TOKEN), 12);
    assert_eq!(bank.free_balance(TOKEN, BUYER), 10);
    assert_eq!(bank.free_balance(NATIVE_CURRENCY_ID, BUYER), 5);
    assert_eq!(bank.free_balance(NATIVE_CURRENCY_ID, token_account(1)), cost);
    match pallet.events().last().unwrap() {
        Event::TokenMint(who, token, amount, paid) => {
            assert_eq!((*who, *token, *amount, *paid), (BUYER, TOKEN, 10, cost));
        }
        _ => panic!("expected a mint event"),
    }
}

#[test]
fn buy_supply_cap_boundary() {
    // reaching the cap exactly succeeds...
    let (mut pallet, mut bank) = setup_with_user();
    create_token(&mut pallet, &mut bank, CurveType::Exponential, 12);
    bank.deposit(NATIVE_CURRENCY_ID, BUYER, u128::MAX / 2).unwrap();
    assert!(pallet.buy_user_token(&mut bank, BUYER, TOKEN, 10).is_ok());
    // ...and one more unit is refused with the cap error
    let r = pallet.buy_user_token(&mut bank, BUYER, TOKEN, 1);
    assert_eq!(r, Err(Error::TokenMaxSupplyExceeded));
    assert_eq!(bank.total_issuance(TOKEN), 12);
}

#[test]
fn buy_one_unit_over_the_cap_fails() {
    let (mut pallet, mut bank) = setup_with_user();
    create_token(&mut pallet, &mut bank, CurveType::Exponential, 12);
    bank.deposit(NATIVE_CURRENCY_ID, BUYER, u128::MAX / 2).unwrap();
    let r = pallet.buy_user_token(&mut bank, BUYER, TOKEN, 11);
    assert_eq!(r, Err(Error::TokenMaxSupplyExceeded));
    assert_eq!(bank.total_issuance(TOKEN), 2);
    assert_eq!(bank.free_balance(TOKEN, BUYER), 0);
}

#[test]
fn buy_requires_funds_for_the_full_cost() {
    let (mut pallet, mut bank) = setup_with_user();
    create_token(&mut pallet, &mut bank, CurveType::Exponential, 1000);
    let cost: u128 = 675462155170 - 1861;
    bank.deposit(NATIVE_CURRENCY_ID, BUYER, cost - 1).unwrap();
    let r = pallet.buy_user_token(&mut bank, BUYER, TOKEN, 10);
    assert_eq!(r, Err(Error::InsufficentBalanceForPurchase));
    assert_eq!(bank.total_issuance(TOKEN), 2);
}

#[test]
fn buy_unknown_token_fails() {
    let mut pallet = Pallet::new();
    let mut bank = Bank::new();
    let r = pallet.buy_user_token(&mut bank, BUYER, 123, 1);
    assert_eq!(r, Err(Error::TokenDoesNotExist));
}

#[test]
fn buy_overflow_is_an_error_not_a_wrap() {
    // the steep curve cannot price ten units in 128-bit arithmetic
    let (mut pallet, mut bank) = setup_with_user();
    create_token(&mut pallet, &mut bank, CurveType::Linear, 1000);
    bank.deposit(NATIVE_CURRENCY_ID, BUYER, u128::MAX / 2).unwrap();
    let r = pallet.buy_user_token(&mut bank, BUYER, TOKEN, 10);
    assert_eq!(r, Err(Error::Overflow));
    assert_eq!(bank.total_issuance(TOKEN), 2);
}

#[test]
fn buy_then_sell_refunds_exactly_the_cost() {
    let (mut pallet, mut bank) = setup_with_user();
    create_token(&mut pallet, &mut bank, CurveType::Exponential, 1000);
    bank.deposit(NATIVE_CURRENCY_ID, BUYER, 1_000_000_000_000).unwrap();
    let cost = pallet.buy_user_token(&mut bank, BUYER, TOKEN, 10).unwrap();
    let refund = pallet.sell_user_token(&mut bank, BUYER, TOKEN, 10).unwrap();
    assert_eq!(refund, cost);
    assert_eq!(bank.total_issuance(TOKEN), 2);
    assert_eq!(bank.free_balance(TOKEN, BUYER), 0);
    assert_eq!(bank.free_balance(NATIVE_CURRENCY_ID, BUYER), 1_000_000_000_000);
    assert_eq!(bank.free_balance(NATIVE_CURRENCY_ID, token_account(1)), 0);
    match pallet.events().last().unwrap() {
        Event::TokenBurn(who, token, amount, got) => {
            assert_eq!((*who, *token, *amount, *got), (BUYER, TOKEN, 10, refund));
        }
        _ => panic!("expected a burn event"),
    }
}

#[test]
fn sell_requires_holding_the_amount() {
    let (mut pallet, mut bank) = setup_with_user();
    create_token(&mut pallet, &mut bank, CurveType::Exponential, 1000);
    let r = pallet.sell_user_token(&mut bank, BUYER, TOKEN, 1);
    assert_eq!(r, Err(Error::InsufficientBalance));
}

#[test]
fn spot_price_is_average_cost_and_is_cached() {
    let (mut pallet, mut bank) = setup_with_user();
    create_token(&mut pallet, &mut bank, CurveType::Exponential, 1000);
    bank.deposit(NATIVE_CURRENCY_ID, BUYER, 1_000_000_000_000).unwrap();
    pallet.buy_user_token(&mut bank, BUYER, TOKEN, 10).unwrap();
    // integral(12) / 12 on x^11 * 10 / 11
    let spot = pallet.user_token_spot_price(&bank, TOKEN).unwrap();
    assert_eq!(spot, 675462155170 / 12);
    assert_eq!(pallet.token_spot_price(TOKEN), Some(spot));
    match pallet.events().last().unwrap() {
        Event::TokenSpotPrice(token, price) => {
            assert_eq!((*token, *price), (TOKEN, spot));
        }
        _ => panic!("expected a spot-price event"),
    }
}

#[test]
fn spot_price_of_drained_token_is_division_by_zero() {
    let (mut pallet, mut bank) = setup_with_user();
    create_token(&mut pallet, &mut bank, CurveType::Exponential, 1000);
    // the existence balance itself can be sold back once the pot is funded
    bank.deposit(NATIVE_CURRENCY_ID, token_account(1), 2000).unwrap();
    let refund = pallet
        .sell_user_token(&mut bank, PALLET_ACCOUNT, TOKEN, 2)
        .unwrap();
    assert_eq!(refund, 1861); // integral(2) - integral(0)
    assert_eq!(bank.total_issuance(TOKEN), 0);
    let r = pallet.user_token_spot_price(&bank, TOKEN);
    assert_eq!(r, Err(Error::DivisionByZero));
}

#[test]
fn linear_curve_scenario_buy_spot_sell() {
    // Linear parameters (exponent 50, slope 100), supply cap 1000: three
    // units is the most this curve can price from the existence balance.
    let (mut pallet, mut bank) = setup_with_user();
    create_token(&mut pallet, &mut bank, CurveType::Linear, 1000);
    let cost_expected: u128 = 870763156568750227783240523992800245 - 4415293752324015;
    bank.deposit(NATIVE_CURRENCY_ID, BUYER, cost_expected + 1).unwrap();
    let cost = pallet.buy_user_token(&mut bank, BUYER, TOKEN, 3).unwrap();
    assert_eq!(cost, cost_expected);
    let spot = pallet.user_token_spot_price(&bank, TOKEN).unwrap();
    assert_eq!(spot, 870763156568750227783240523992800245 / 5);
    let refund = pallet.sell_user_token(&mut bank, BUYER, TOKEN, 3).unwrap();
    assert_eq!(refund, cost);
    assert_eq!(bank.total_issuance(TOKEN), 2);
}

#[test]
fn airdrop_credits_every_occurrence() {
    let (mut pallet, mut bank) = setup_with_user();
    create_token(&mut pallet, &mut bank, CurveType::Exponential, 1000);
    pallet
        .user_token_airdrop(&mut bank, TOKEN, vec![7, 8, 7], 5)
        .unwrap();
    assert_eq!(bank.free_balance(TOKEN, 7), 10);
    assert_eq!(bank.free_balance(TOKEN, 8), 5);
    assert_eq!(bank.total_issuance(TOKEN), 17);
    match pallet.events().last().unwrap() {
        Event::UserTokensAirDropped(token, amount, from, to) => {
            assert_eq!((*token, *amount, *from), (TOKEN, 5, CREATOR));
            assert_eq!(to, &vec![7, 8, 7]);
        }
        _ => panic!("expected an airdrop event"),
    }
}

#[test]
fn airdrop_unknown_token_fails() {
    let mut pallet = Pallet::new();
    let mut bank = Bank::new();
    let r = pallet.user_token_airdrop(&mut bank, 123, vec![7], 5);
    assert_eq!(r, Err(Error::TokenDoesNotExist));
}
