//! The issuance engine: creator registry and bonding-curve market maker.
//!
//! Each creator token lives on a fixed bonding curve.  Buying mints supply
//! and costs the definite integral of the curve over the minted range;
//! selling burns supply and refunds the integral over the retired range.
//! Supply caps and solvency checks are enforced here, and all funds move
//! through the shared `Bank` ledger, atomically per operation: an operation
//! that fails leaves both the engine and the ledger exactly as they were.

use vstd::prelude::*;

verus! {

use crate::bank::Bank;
use crate::curves::integral_fits;
use crate::curves::lemma_integral_fits_monotonic;
use crate::curves::lemma_integral_monotonic;
use crate::curves::spec_curve_config;
use crate::curves::spec_integral;
use crate::curves::CurveConfig;
use crate::curves::CurveType;
use crate::store::StorageMap;
use vstd::arithmetic::mul::lemma_mul_basics;
use vstd::arithmetic::mul::lemma_mul_is_distributive_add;
use vstd::arithmetic::mul::lemma_mul_left_inequality;

pub type UserId = u64;

/// Currency id of the reserve (native) currency in the `Bank`.
pub const NATIVE_CURRENCY_ID: u64 = 0;

/// The fixed deposit a creator must be able to reserve to create a token.
pub const CREATOR_ASSET_DEPOSIT: u128 = 100;

/// Account that holds the nominal existence balance of every token.
pub const PALLET_ACCOUNT: u64 = 0x8000_0000_0000_0000;

/// The nominal existence balance minted to `PALLET_ACCOUNT` on creation,
/// so that later issuance queries are well-defined.
pub const EXISTENTIAL_TOKEN_BALANCE: u128 = 2;

/// The protocol sub-account that escrows the reserve currency paid for
/// one token's supply, derived from the token's curve id.
pub open spec fn spec_token_account(curve_id: u64) -> u64 {
    if curve_id < 0x8000_0000_0000_0000 {
        (0x8000_0000_0000_0000 + curve_id) as u64
    } else {
        curve_id
    }
}

/// Executable form of `spec_token_account`.
pub fn token_account(curve_id: u64) -> (r: u64)
    ensures
        r == spec_token_account(curve_id),
{
    if curve_id < 0x8000_0000_0000_0000 {
        0x8000_0000_0000_0000 + curve_id
    } else {
        curve_id
    }
}

/// A registered creator.
pub struct User {
    pub id: UserId,
    pub name: Vec<u8>,
    pub profile_image: Vec<u8>,
    pub vines_count: Option<u64>,
    pub is_following: bool,
    pub accounts: Vec<u64>,
    pub token_info: Option<TokenInfo>,
}

/// The ledger entry of one issued creator token.
pub struct TokenInfo {
    pub token_id: u64,
    pub curve_id: u64,
    pub creator: u64,
    pub curve_type: CurveType,
    pub token_name: Vec<u8>,
    pub token_symbol: Vec<u8>,
    pub token_decimals: u8,
    pub max_supply: u128,
}

/// Domain events emitted by the issuance engine, in order.
pub enum Event {
    /// (user id, user name)
    UserCreated(UserId, Vec<u8>),
    /// (user id, user name, token id, token name)
    UserWithTokenCreated(UserId, Vec<u8>, u64, Vec<u8>),
    /// (minter, token id, mint amount, cost)
    TokenMint(u64, u64, u128, u128),
    /// (burner, token id, burn amount, refund)
    TokenBurn(u64, u64, u128, u128),
    /// (token id, cached spot price)
    TokenSpotPrice(u64, u128),
    /// (token id, amount each, token creator, beneficiaries)
    UserTokensAirDropped(u64, u128, u64, Vec<u64>),
}

/// Why an issuance operation was refused.  No error leaves any state
/// changed.
#[derive(Clone, Copy, PartialEq, Eq, Structural, Debug)]
pub enum Error {
    /// The creator cannot reserve the fixed creation deposit.
    InsufficientBalanceToReserve,
    /// The token id already has issuance (or is the native currency).
    TokenAlreadyExists,
    /// No token ledger entry under this id.
    TokenDoesNotExist,
    /// The purchase would push supply past the token's cap.
    TokenMaxSupplyExceeded,
    /// The buyer's reserve-currency balance cannot cover the cost.
    InsufficentBalanceForPurchase,
    /// No user registered under this id.
    UserDoesNotExist,
    /// A debited balance is smaller than the amount to move.
    InsufficientBalance,
    /// A value left the 128-bit range; never wrapped silently.
    Overflow,
    /// Spot price of a token with zero issuance is undefined.
    DivisionByZero,
}

pub open spec fn is_user_created_event(e: Event, id: UserId, name: Seq<u8>) -> bool {
    e matches Event::UserCreated(i, n) && i == id && n@ == name
}

pub open spec fn is_user_with_token_created_event(
    e: Event,
    id: UserId,
    name: Seq<u8>,
    token_id: u64,
    token_name: Seq<u8>,
) -> bool {
    e matches Event::UserWithTokenCreated(i, n, t, tn) && i == id && n@ == name && t == token_id
        && tn@ == token_name
}

/// The cost of buying `amount` units at current supply `issuance`: the
/// integral over the minted range, computed from the pre-mutation supply.
pub open spec fn spec_buy_cost(cfg: CurveConfig, issuance: u128, amount: u128) -> int {
    spec_integral(cfg.exponent, cfg.slope, (issuance + amount) as u128) - spec_integral(
        cfg.exponent,
        cfg.slope,
        issuance,
    )
}

/// The refund for selling `amount` units at current supply `issuance`:
/// the integral over the retired range.
pub open spec fn spec_sell_refund(cfg: CurveConfig, issuance: u128, amount: u128) -> int {
    spec_integral(cfg.exponent, cfg.slope, issuance) - spec_integral(
        cfg.exponent,
        cfg.slope,
        (issuance - amount) as u128,
    )
}

/// Round trip: a `buy` immediately followed by a `sell` of the same
/// amount refunds exactly the original cost — never more — because both
/// are the same definite integral over the same supply range.
pub proof fn lemma_buy_sell_round_trip(cfg: CurveConfig, issuance: u128, amount: u128)
    requires
        issuance + amount <= u128::MAX,
    ensures
        spec_sell_refund(cfg, (issuance + amount) as u128, amount) == spec_buy_cost(
            cfg,
            issuance,
            amount,
        ),
        spec_buy_cost(cfg, issuance, amount) >= 0,
        spec_sell_refund(cfg, (issuance + amount) as u128, amount) <= spec_buy_cost(
            cfg,
            issuance,
            amount,
        ),
{
    lemma_integral_monotonic(cfg.exponent, cfg.slope, issuance, (issuance + amount) as u128);
}

/// Field-by-field description of a stored `TokenInfo` (byte payloads
/// compared by contents).
pub open spec fn token_info_matches(
    ti: TokenInfo,
    token_id: u64,
    curve_id: u64,
    creator: u64,
    curve_type: CurveType,
    token_name: Seq<u8>,
    token_symbol: Seq<u8>,
    token_decimals: u8,
    max_supply: u128,
) -> bool {
    &&& ti.token_id == token_id
    &&& ti.curve_id == curve_id
    &&& ti.creator == creator
    &&& ti.curve_type == curve_type
    &&& ti.token_name@ == token_name
    &&& ti.token_symbol@ == token_symbol
    &&& ti.token_decimals == token_decimals
    &&& ti.max_supply == max_supply
}

/// Exactly when and how `create_user_token` fails, in the order the
/// checks are made.  The native currency counts as an existing token.
pub open spec fn create_user_token_outcome(
    pre_s: Pallet,
    pre_b: Bank,
    creator: u64,
    user_id: UserId,
    token_id: u64,
) -> Result<(), Error> {
    if pre_s.spec_user(user_id) is None {
        Err(Error::UserDoesNotExist)
    } else if pre_b.balance_of(NATIVE_CURRENCY_ID, creator) < CREATOR_ASSET_DEPOSIT {
        Err(Error::InsufficientBalanceToReserve)
    } else if token_id == NATIVE_CURRENCY_ID || pre_b.issuance_of(token_id) != 0 {
        Err(Error::TokenAlreadyExists)
    } else if pre_s.spec_next_token_id() == u64::MAX {
        Err(Error::Overflow)
    } else if pre_b.balance_of(token_id, PALLET_ACCOUNT) + EXISTENTIAL_TOKEN_BALANCE
        > u128::MAX {
        Err(Error::Overflow)
    } else {
        Ok(())
    }
}

/// Exactly the result of `buy_user_token`: which error on which state,
/// in check order, and the cost charged on success.
pub open spec fn buy_outcome(
    pre_s: Pallet,
    pre_b: Bank,
    buyer: u64,
    token_id: u64,
    amount: u128,
) -> Result<u128, Error> {
    if pre_s.spec_token(token_id) is None {
        Err(Error::TokenDoesNotExist)
    } else {
        let ti = pre_s.spec_token(token_id).unwrap();
        let cfg = spec_curve_config(ti.curve_type);
        let issuance = pre_b.issuance_of(token_id);
        let pot = spec_token_account(ti.curve_id);
        if issuance + amount > ti.max_supply {
            Err(Error::TokenMaxSupplyExceeded)
        } else if !(integral_fits(cfg.exponent, cfg.slope, issuance) && integral_fits(
            cfg.exponent,
            cfg.slope,
            (issuance + amount) as u128,
        )) {
            Err(Error::Overflow)
        } else {
            let cost = spec_buy_cost(cfg, issuance, amount);
            if pre_b.balance_of(NATIVE_CURRENCY_ID, buyer) < cost {
                Err(Error::InsufficentBalanceForPurchase)
            } else if buyer != pot && pre_b.balance_of(NATIVE_CURRENCY_ID, pot) + cost
                > u128::MAX {
                Err(Error::Overflow)
            } else if pre_b.balance_of(token_id, buyer) + amount > u128::MAX {
                Err(Error::Overflow)
            } else {
                Ok(cost as u128)
            }
        }
    }
}

/// Exactly the result of `sell_user_token`: which error on which state,
/// in check order, and the refund paid on success.
pub open spec fn sell_outcome(
    pre_s: Pallet,
    pre_b: Bank,
    seller: u64,
    token_id: u64,
    amount: u128,
) -> Result<u128, Error> {
    if pre_s.spec_token(token_id) is None {
        Err(Error::TokenDoesNotExist)
    } else {
        let ti = pre_s.spec_token(token_id).unwrap();
        let cfg = spec_curve_config(ti.curve_type);
        let issuance = pre_b.issuance_of(token_id);
        let pot = spec_token_account(ti.curve_id);
        if pre_b.balance_of(token_id, seller) < amount || issuance < amount {
            Err(Error::InsufficientBalance)
        } else if !integral_fits(cfg.exponent, cfg.slope, issuance) {
            Err(Error::Overflow)
        } else {
            let refund = spec_sell_refund(cfg, issuance, amount);
            if pre_b.balance_of(NATIVE_CURRENCY_ID, pot) < refund {
                Err(Error::InsufficientBalance)
            } else if pot != seller && pre_b.balance_of(NATIVE_CURRENCY_ID, seller) + refund
                > u128::MAX {
                Err(Error::Overflow)
            } else {
                Ok(refund as u128)
            }
        }
    }
}

/// Exactly the result of `user_token_spot_price`: the average cost per
/// unit of the current supply, undefined at zero issuance.
pub open spec fn spot_price_outcome(pre_s: Pallet, pre_b: Bank, token_id: u64) -> Result<
    u128,
    Error,
> {
    if pre_s.spec_token(token_id) is None {
        Err(Error::TokenDoesNotExist)
    } else {
        let ti = pre_s.spec_token(token_id).unwrap();
        let cfg = spec_curve_config(ti.curve_type);
        let issuance = pre_b.issuance_of(token_id);
        if issuance == 0 {
            Err(Error::DivisionByZero)
        } else if !integral_fits(cfg.exponent, cfg.slope, issuance) {
            Err(Error::Overflow)
        } else {
            Ok((spec_integral(cfg.exponent, cfg.slope, issuance) / (issuance as int)) as u128)
        }
    }
}

/// Exactly when `user_token_airdrop` fails: only for an unknown token.
pub open spec fn airdrop_outcome(pre_s: Pallet, token_id: u64) -> Result<(), Error> {
    if pre_s.spec_token(token_id) is None {
        Err(Error::TokenDoesNotExist)
    } else {
        Ok(())
    }
}

/// How many times `x` occurs in `s`.
pub open spec fn count_of(s: Seq<u64>, x: u64) -> int
    decreases s.len(),
{
    if s.len() == 0 {
        0
    } else {
        count_of(s.drop_last(), x) + if s.last() == x {
            1int
        } else {
            0int
        }
    }
}

proof fn lemma_count_of_nonneg(s: Seq<u64>, x: u64)
    ensures
        count_of(s, x) >= 0,
    decreases s.len(),
{
    if s.len() != 0 {
        lemma_count_of_nonneg(s.drop_last(), x);
    }
}

/// Extending a prefix by one element raises the count of exactly that
/// element.
proof fn lemma_count_of_take_step(s: Seq<u64>, i: int, x: u64)
    requires
        0 <= i < s.len(),
    ensures
        count_of(s.take(i + 1), x) == count_of(s.take(i), x) + if s[i] == x {
            1int
        } else {
            0int
        },
{
    let t = s.take(i + 1);
    assert(t.drop_last() =~= s.take(i));
    assert(t.last() == s[i]);
}

/// A prefix never holds more occurrences than the whole sequence.
proof fn lemma_count_of_take_le(s: Seq<u64>, j: int, x: u64)
    requires
        0 <= j <= s.len(),
    ensures
        count_of(s.take(j), x) <= count_of(s, x),
    decreases s.len() - j,
{
    if j == s.len() {
        assert(s.take(j) =~= s);
    } else {
        lemma_count_of_take_step(s, j, x);
        lemma_count_of_take_le(s, j + 1, x);
    }
}

/// Multiplying by a non-negative factor preserves order.
proof fn lemma_mul_le_mono_right(a: int, x: int, y: int)
    requires
        0 <= a,
        x <= y,
    ensures
        a * x <= a * y,
{
    if a > 0 {
        lemma_mul_left_inequality(a, x, y);
    } else {
        lemma_mul_basics(x);
        lemma_mul_basics(y);
    }
}

/// The issuance engine's owned state.
pub struct Pallet {
    next_token_id: u64,
    next_user_id: u64,
    users: StorageMap<User>,
    token_storage: StorageMap<TokenInfo>,
    token_spot_price: StorageMap<u128>,
    events: Vec<Event>,
}

impl Pallet {
    /// Storage tables are well-formed and the native currency never has a
    /// token ledger entry.
    pub closed spec fn wf(self) -> bool {
        &&& self.users.wf()
        &&& self.token_storage.wf()
        &&& self.token_spot_price.wf()
        &&& self.token_storage.spec_get(NATIVE_CURRENCY_ID) is None
    }

    /// The registered user under `id`, if any.
    pub closed spec fn spec_user(self, id: UserId) -> Option<User> {
        self.users.spec_get(id)
    }

    /// The token ledger entry under `token_id`, if any.
    pub closed spec fn spec_token(self, token_id: u64) -> Option<TokenInfo> {
        self.token_storage.spec_get(token_id)
    }

    /// The cached spot price of `token_id`, if one was ever computed.
    pub closed spec fn spec_spot_price(self, token_id: u64) -> Option<u128> {
        self.token_spot_price.spec_get(token_id)
    }

    pub closed spec fn spec_next_token_id(self) -> u64 {
        self.next_token_id
    }

    pub closed spec fn spec_next_user_id(self) -> u64 {
        self.next_user_id
    }

    /// All events emitted so far, oldest first.
    pub closed spec fn events_view(self) -> Seq<Event> {
        self.events@
    }

    /// A fresh engine: no users, no tokens, no events.
    pub fn new() -> (r: Pallet)
        ensures
            r.wf(),
            r.spec_next_token_id() == 0,
            r.spec_next_user_id() == 0,
            forall|id: UserId| #[trigger] r.spec_user(id) is None,
            forall|t: u64| #[trigger] r.spec_token(t) is None,
            forall|t: u64| #[trigger] r.spec_spot_price(t) is None,
            r.events_view() == Seq::<Event>::empty(),
    {
        Pallet {
            next_token_id: 0,
            next_user_id: 0,
            users: StorageMap::new(),
            token_storage: StorageMap::new(),
            token_spot_price: StorageMap::new(),
            events: Vec::new(),
        }
    }

    /// Registers a new user for `creator` and returns the fresh user id.
    /// Fails only when the id counter is exhausted, changing nothing.
    pub fn create_user(&mut self, creator: u64, user_name: Vec<u8>, profile_image: Vec<u8>) -> (r:
        Result<UserId, Error>)
        requires
            old(self).wf(),
        ensures
            final(self).wf(),
            old(self).spec_next_user_id() == u64::MAX ==> r == Err::<UserId, Error>(
                Error::Overflow,
            ) && *final(self) == *old(self),
            old(self).spec_next_user_id() < u64::MAX ==> {
                let id = (old(self).spec_next_user_id() + 1) as u64;
                &&& r == Ok::<UserId, Error>(id)
                &&& final(self).spec_next_user_id() == id
                &&& final(self).spec_next_token_id() == old(self).spec_next_token_id()
                &&& final(self).spec_user(id) matches Some(u) && u.id == id && u.name@
                    == user_name@ && u.profile_image@ == profile_image@ && u.vines_count is None
                    && !u.is_following && u.accounts@ == seq![creator] && u.token_info is None
                &&& forall|k: UserId|
                    k != id ==> #[trigger] final(self).spec_user(k) == old(self).spec_user(k)
                &&& forall|t: u64| #[trigger] final(self).spec_token(t) == old(self).spec_token(t)
                &&& forall|t: u64|
                    #[trigger] final(self).spec_spot_price(t) == old(self).spec_spot_price(t)
                &&& final(self).events_view() == old(self).events_view().push(
                    final(self).events_view().last(),
                )
                &&& is_user_created_event(final(self).events_view().last(), id, user_name@)
            },
    {
        if self.next_user_id == u64::MAX {
            return Err(Error::Overflow);
        }
        let curr_user_id: u64 = self.get_next_user_id();
        let name_for_event: Vec<u8> = clone_bytes(&user_name);
        let new_user = User {
            id: curr_user_id,
            name: user_name,
            profile_image,
            vines_count: None,
            is_following: false,
            accounts: vec![creator],
            token_info: None,
        };
        self.users.insert(curr_user_id, new_user);
        self.events.push(Event::UserCreated(curr_user_id, name_for_event));
        Ok(curr_user_id)
    }

    /// Creates `creator`'s token under the chosen `token_id` on the given
    /// curve.  The token id must have zero prior issuance and the creator
    /// must be able to reserve the fixed creation deposit.  On success a
    /// nominal existence balance is minted to the protocol account, the
    /// user's record and the token ledger are updated and an event is
    /// emitted; on any error nothing at all changes.
    pub fn create_user_token(
        &mut self,
        bank: &mut Bank,
        creator: u64,
        user_id: UserId,
        token_id: u64,
        curve_type: CurveType,
        token_name: Vec<u8>,
        token_symbol: Vec<u8>,
        token_decimals: u8,
        max_supply: u128,
    ) -> (r: Result<(), Error>)
        requires
            old(self).wf(),
            old(bank).wf(),
        ensures
            final(self).wf(),
            final(bank).wf(),
            r == create_user_token_outcome(*old(self), *old(bank), creator, user_id, token_id),
            r is Err ==> *final(self) == *old(self) && *final(bank) == *old(bank),
            r is Ok ==> {
                let curve_id = (old(self).spec_next_token_id() + 1) as u64;
                &&& final(self).spec_next_token_id() == curve_id
                &&& final(self).spec_next_user_id() == old(self).spec_next_user_id()
                &&& final(bank).issuance_of(token_id) == EXISTENTIAL_TOKEN_BALANCE
                &&& final(bank).balance_of(token_id, PALLET_ACCOUNT) == old(bank).balance_of(
                    token_id,
                    PALLET_ACCOUNT,
                ) + EXISTENTIAL_TOKEN_BALANCE
                &&& forall|c: u64, o: u64|
                    !(c == token_id && o == PALLET_ACCOUNT) ==> #[trigger] final(bank).balance_of(
                        c,
                        o,
                    ) == old(bank).balance_of(c, o)
                &&& forall|c: u64|
                    c != token_id ==> #[trigger] final(bank).issuance_of(c) == old(
                        bank,
                    ).issuance_of(c)
                &&& old(self).spec_user(user_id) is Some
                &&& final(self).spec_user(user_id) matches Some(u) && ({
                    let u0 = old(self).spec_user(user_id).unwrap();
                    &&& u.id == u0.id
                    &&& u.name == u0.name
                    &&& u.profile_image == u0.profile_image
                    &&& u.vines_count == u0.vines_count
                    &&& u.is_following == u0.is_following
                    &&& u.accounts == u0.accounts
                    &&& u.token_info matches Some(ti) && token_info_matches(
                        ti,
                        token_id,
                        curve_id,
                        creator,
                        curve_type,
                        token_name@,
                        token_symbol@,
                        token_decimals,
                        max_supply,
                    )
                })
                &&& final(self).spec_token(token_id) matches Some(st) && token_info_matches(
                    st,
                    token_id,
                    curve_id,
                    creator,
                    curve_type,
                    token_name@,
                    token_symbol@,
                    token_decimals,
                    max_supply,
                )
                &&& forall|k: UserId|
                    k != user_id ==> #[trigger] final(self).spec_user(k) == old(self).spec_user(k)
                &&& forall|t: u64|
                    t != token_id ==> #[trigger] final(self).spec_token(t) == old(self).spec_token(
                        t,
                    )
                &&& forall|t: u64|
                    #[trigger] final(self).spec_spot_price(t) == old(self).spec_spot_price(t)
                &&& final(self).events_view() == old(self).events_view().push(
                    final(self).events_view().last(),
                )
                &&& is_user_with_token_created_event(
                    final(self).events_view().last(),
                    user_id,
                    old(self).spec_user(user_id).unwrap().name@,
                    token_id,
                    token_name@,
                )
            },
    {
        if !self.users.contains_key(user_id) {
            return Err(Error::UserDoesNotExist);
        }
        if !bank.can_reserve(NATIVE_CURRENCY_ID, creator, CREATOR_ASSET_DEPOSIT) {
            return Err(Error::InsufficientBalanceToReserve);
        }
        if token_id == NATIVE_CURRENCY_ID {
            return Err(Error::TokenAlreadyExists);
        }
        if bank.total_issuance(token_id) != 0 {
            return Err(Error::TokenAlreadyExists);
        }
        if self.next_token_id == u64::MAX {
            return Err(Error::Overflow);
        }
        let pallet_balance: u128 = bank.free_balance(token_id, PALLET_ACCOUNT);
        if pallet_balance > u128::MAX - EXISTENTIAL_TOKEN_BALANCE {
            return Err(Error::Overflow);
        }
        let curr_curve_id: u64 = self.get_next_token_id();
        match bank.deposit(token_id, PALLET_ACCOUNT, EXISTENTIAL_TOKEN_BALANCE) {
            Ok(()) => {},
            Err(_) => {
                return Err(Error::Overflow);
            },
        }
        let mut user = match self.users.take(user_id) {
            Some(u) => u,
            None => {
                return Err(Error::UserDoesNotExist);
            },
        };
        let name_for_event: Vec<u8> = clone_bytes(&user.name);
        let token_name_for_event: Vec<u8> = clone_bytes(&token_name);
        let stored_info = TokenInfo {
            token_id,
            curve_id: curr_curve_id,
            creator,
            curve_type,
            token_name: clone_bytes(&token_name),
            token_symbol: clone_bytes(&token_symbol),
            token_decimals,
            max_supply,
        };
        let user_info = TokenInfo {
            token_id,
            curve_id: curr_curve_id,
            creator,
            curve_type,
            token_name,
            token_symbol,
            token_decimals,
            max_supply,
        };
        user.token_info = Some(user_info);
        self.users.insert(user_id, user);
        self.token_storage.insert(token_id, stored_info);
        self.events.push(
            Event::UserWithTokenCreated(user_id, name_for_event, token_id, token_name_for_event),
        );
        Ok(())
    }

    /// Buys `amount` units of `token_id` for `buyer`.  The cost is the
    /// curve integral over the minted supply range, computed from the
    /// pre-mutation supply; it moves from the buyer to the token's
    /// protocol sub-account and the bought units are minted to the buyer.
    /// On any error nothing at all changes.
    pub fn buy_user_token(&mut self, bank: &mut Bank, buyer: u64, token_id: u64, amount: u128) -> (r:
        Result<u128, Error>)
        requires
            old(self).wf(),
            old(bank).wf(),
        ensures
            final(self).wf(),
            final(bank).wf(),
            r == buy_outcome(*old(self), *old(bank), buyer, token_id, amount),
            r is Err ==> *final(self) == *old(self) && *final(bank) == *old(bank),
            r is Ok ==> {
                let ti = old(self).spec_token(token_id).unwrap();
                let cfg = spec_curve_config(ti.curve_type);
                let issuance = old(bank).issuance_of(token_id);
                let pot = spec_token_account(ti.curve_id);
                let cost = spec_buy_cost(cfg, issuance, amount);
                &&& r == Ok::<u128, Error>((cost as u128))
                &&& final(bank).issuance_of(token_id) == issuance + amount
                &&& final(bank).issuance_of(token_id) <= ti.max_supply
                &&& final(bank).balance_of(token_id, buyer) == old(bank).balance_of(
                    token_id,
                    buyer,
                ) + amount
                &&& buyer != pot ==> final(bank).balance_of(NATIVE_CURRENCY_ID, buyer) == old(
                    bank,
                ).balance_of(NATIVE_CURRENCY_ID, buyer) - cost && final(bank).balance_of(
                    NATIVE_CURRENCY_ID,
                    pot,
                ) == old(bank).balance_of(NATIVE_CURRENCY_ID, pot) + cost
                &&& buyer == pot ==> final(bank).balance_of(NATIVE_CURRENCY_ID, buyer) == old(
                    bank,
                ).balance_of(NATIVE_CURRENCY_ID, buyer)
                &&& forall|c: u64, o: u64|
                    !((c == NATIVE_CURRENCY_ID && (o == buyer || o == pot)) || (c == token_id && o
                        == buyer)) ==> #[trigger] final(bank).balance_of(c, o) == old(
                        bank,
                    ).balance_of(c, o)
                &&& forall|c: u64|
                    c != token_id ==> #[trigger] final(bank).issuance_of(c) == old(
                        bank,
                    ).issuance_of(c)
                &&& final(self).events_view() == old(self).events_view().push(
                    Event::TokenMint(buyer, token_id, amount, (cost as u128)),
                )
            },
            final(self).spec_next_token_id() == old(self).spec_next_token_id(),
            final(self).spec_next_user_id() == old(self).spec_next_user_id(),
            forall|k: UserId| #[trigger] final(self).spec_user(k) == old(self).spec_user(k),
            forall|t: u64| #[trigger] final(self).spec_token(t) == old(self).spec_token(t),
            forall|t: u64|
                #[trigger] final(self).spec_spot_price(t) == old(self).spec_spot_price(t),
    {
        let (curve_type, max_supply, curve_id) = match self.token_storage.get(token_id) {
            Some(t) => (t.curve_type, t.max_supply, t.curve_id),
            None => {
                return Err(Error::TokenDoesNotExist);
            },
        };
        proof {
            // The native currency never has a token entry, so this token is
            // distinct from the reserve currency.
            assert(token_id != NATIVE_CURRENCY_ID);
        }
        let issuance: u128 = bank.total_issuance(token_id);
        if issuance > max_supply {
            return Err(Error::TokenMaxSupplyExceeded);
        }
        if amount > max_supply - issuance {
            return Err(Error::TokenMaxSupplyExceeded);
        }
        let issuance_after: u128 = issuance + amount;
        let curve_config = curve_type.get_curve_config();
        let integral_before: u128 = match curve_config.integral(issuance) {
            Some(v) => v,
            None => {
                return Err(Error::Overflow);
            },
        };
        let integral_after: u128 = match curve_config.integral(issuance_after) {
            Some(v) => v,
            None => {
                return Err(Error::Overflow);
            },
        };
        proof {
            lemma_integral_monotonic(
                curve_config.exponent,
                curve_config.slope,
                issuance,
                issuance_after,
            );
        }
        let cost: u128 = integral_after - integral_before;
        if bank.free_balance(NATIVE_CURRENCY_ID, buyer) < cost {
            return Err(Error::InsufficentBalanceForPurchase);
        }
        let pot: u64 = token_account(curve_id);
        if buyer != pot {
            let pot_balance: u128 = bank.free_balance(NATIVE_CURRENCY_ID, pot);
            if pot_balance > u128::MAX - cost {
                return Err(Error::Overflow);
            }
        }
        let buyer_token_balance: u128 = bank.free_balance(token_id, buyer);
        if buyer_token_balance > u128::MAX - amount {
            return Err(Error::Overflow);
        }
        match bank.transfer(NATIVE_CURRENCY_ID, buyer, pot, cost) {
            Ok(()) => {},
            Err(_) => {
                return Err(Error::Overflow);
            },
        }
        match bank.deposit(token_id, buyer, amount) {
            Ok(()) => {},
            Err(_) => {
                return Err(Error::Overflow);
            },
        }
        self.events.push(Event::TokenMint(buyer, token_id, amount, cost));
        Ok(cost)
    }

    /// Sells `amount` units of `token_id` back to the curve for `seller`.
    /// The refund is the curve integral over the retired supply range,
    /// computed from the pre-mutation supply; the sold units are burned
    /// and the refund moves from the token's protocol sub-account to the
    /// seller.  On any error nothing at all changes.
    pub fn sell_user_token(
        &mut self,
        bank: &mut Bank,
        seller: u64,
        token_id: u64,
        amount: u128,
    ) -> (r: Result<u128, Error>)
        requires
            old(self).wf(),
            old(bank).wf(),
        ensures
            final(self).wf(),
            final(bank).wf(),
            r == sell_outcome(*old(self), *old(bank), seller, token_id, amount),
            r is Err ==> *final(self) == *old(self) && *final(bank) == *old(bank),
            r is Ok ==> {
                let ti = old(self).spec_token(token_id).unwrap();
                let cfg = spec_curve_config(ti.curve_type);
                let issuance = old(bank).issuance_of(token_id);
                let pot = spec_token_account(ti.curve_id);
                let refund = spec_sell_refund(cfg, issuance, amount);
                &&& r == Ok::<u128, Error>((refund as u128))
                &&& final(bank).issuance_of(token_id) == issuance - amount
                &&& final(bank).balance_of(token_id, seller) == old(bank).balance_of(
                    token_id,
                    seller,
                ) - amount
                &&& pot != seller ==> final(bank).balance_of(NATIVE_CURRENCY_ID, pot) == old(
                    bank,
                ).balance_of(NATIVE_CURRENCY_ID, pot) - refund && final(bank).balance_of(
                    NATIVE_CURRENCY_ID,
                    seller,
                ) == old(bank).balance_of(NATIVE_CURRENCY_ID, seller) + refund
                &&& pot == seller ==> final(bank).balance_of(NATIVE_CURRENCY_ID, seller) == old(
                    bank,
                ).balance_of(NATIVE_CURRENCY_ID, seller)
                &&& forall|c: u64, o: u64|
                    !((c == NATIVE_CURRENCY_ID && (o == seller || o == pot)) || (c == token_id && o
                        == seller)) ==> #[trigger] final(bank).balance_of(c, o) == old(
                        bank,
                    ).balance_of(c, o)
                &&& forall|c: u64|
                    c != token_id ==> #[trigger] final(bank).issuance_of(c) == old(
                        bank,
                    ).issuance_of(c)
                &&& final(self).events_view() == old(self).events_view().push(
                    Event::TokenBurn(seller, token_id, amount, (refund as u128)),
                )
            },
            final(self).spec_next_token_id() == old(self).spec_next_token_id(),
            final(self).spec_next_user_id() == old(self).spec_next_user_id(),
            forall|k: UserId| #[trigger] final(self).spec_user(k) == old(self).spec_user(k),
            forall|t: u64| #[trigger] final(self).spec_token(t) == old(self).spec_token(t),
            forall|t: u64|
                #[trigger] final(self).spec_spot_price(t) == old(self).spec_spot_price(t),
    {
        let (curve_type, curve_id) = match self.token_storage.get(token_id) {
            Some(t) => (t.curve_type, t.curve_id),
            None => {
                return Err(Error::TokenDoesNotExist);
            },
        };
        proof {
            assert(token_id != NATIVE_CURRENCY_ID);
        }
        let seller_balance: u128 = bank.free_balance(token_id, seller);
        let issuance: u128 = bank.total_issuance(token_id);
        if seller_balance < amount || issuance < amount {
            return Err(Error::InsufficientBalance);
        }
        let curve_config = curve_type.get_curve_config();
        let integral_before: u128 = match curve_config.integral(issuance) {
            Some(v) => v,
            None => {
                return Err(Error::Overflow);
            },
        };
        let issuance_after: u128 = issuance - amount;
        let integral_after: u128 = match curve_config.integral(issuance_after) {
            Some(v) => v,
            None => {
                proof {
                    lemma_integral_fits_monotonic(
                        curve_config.exponent,
                        curve_config.slope,
                        issuance_after,
                        issuance,
                    );
                }
                return Err(Error::Overflow);
            },
        };
        proof {
            lemma_integral_monotonic(
                curve_config.exponent,
                curve_config.slope,
                issuance_after,
                issuance,
            );
        }
        let return_amount: u128 = integral_before - integral_after;
        let pot: u64 = token_account(curve_id);
        if bank.free_balance(NATIVE_CURRENCY_ID, pot) < return_amount {
            return Err(Error::InsufficientBalance);
        }
        if pot != seller {
            let seller_native: u128 = bank.free_balance(NATIVE_CURRENCY_ID, seller);
            if seller_native > u128::MAX - return_amount {
                return Err(Error::Overflow);
            }
        }
        match bank.withdraw(token_id, seller, amount) {
            Ok(()) => {},
            Err(_) => {
                return Err(Error::InsufficientBalance);
            },
        }
        match bank.transfer(NATIVE_CURRENCY_ID, pot, seller, return_amount) {
            Ok(()) => {},
            Err(_) => {
                return Err(Error::Overflow);
            },
        }
        self.events.push(Event::TokenBurn(seller, token_id, amount, return_amount));
        Ok(return_amount)
    }

    /// Computes, caches and returns the spot price of `token_id`: the
    /// average cost per unit of the current supply, `integral(s) / s`.
    /// A freshly created, unbought asset has no defined spot price, and
    /// zero issuance is reported as a division-by-zero failure.
    pub fn user_token_spot_price(&mut self, bank: &Bank, token_id: u64) -> (r: Result<u128, Error>)
        requires
            old(self).wf(),
            bank.wf(),
        ensures
            final(self).wf(),
            r == spot_price_outcome(*old(self), *bank, token_id),
            r is Err ==> *final(self) == *old(self),
            r is Ok ==> {
                let ti = old(self).spec_token(token_id).unwrap();
                let cfg = spec_curve_config(ti.curve_type);
                let issuance = bank.issuance_of(token_id);
                let spot = (spec_integral(cfg.exponent, cfg.slope, issuance) / (
                issuance as int)) as u128;
                &&& r == Ok::<u128, Error>(spot)
                &&& final(self).spec_spot_price(token_id) == Some(spot)
                &&& forall|t: u64|
                    t != token_id ==> #[trigger] final(self).spec_spot_price(t) == old(
                        self,
                    ).spec_spot_price(t)
                &&& final(self).events_view() == old(self).events_view().push(
                    Event::TokenSpotPrice(token_id, spot),
                )
            },
            final(self).spec_next_token_id() == old(self).spec_next_token_id(),
            final(self).spec_next_user_id() == old(self).spec_next_user_id(),
            forall|k: UserId| #[trigger] final(self).spec_user(k) == old(self).spec_user(k),
            forall|t: u64| #[trigger] final(self).spec_token(t) == old(self).spec_token(t),
    {
        let curve_type = match self.token_storage.get(token_id) {
            Some(t) => t.curve_type,
            None => {
                return Err(Error::TokenDoesNotExist);
            },
        };
        let total_issuance: u128 = bank.total_issuance(token_id);
        if total_issuance == 0 {
            return Err(Error::DivisionByZero);
        }
        let curve_config = curve_type.get_curve_config();
        let current_price: u128 = match curve_config.integral(total_issuance) {
            Some(v) => v,
            None => {
                return Err(Error::Overflow);
            },
        };
        let spot_price: u128 = current_price / total_issuance;
        self.token_spot_price.insert(token_id, spot_price);
        self.events.push(Event::TokenSpotPrice(token_id, spot_price));
        Ok(spot_price)
    }

    /// Mints `amount` of `token_id` to every listed beneficiary (one
    /// deposit per list entry, so a repeated entry is credited once per
    /// occurrence).  The bounds in `requires` only rule out 128-bit
    /// overflow of the credited balances and of the total issuance.
    pub fn user_token_airdrop(
        &mut self,
        bank: &mut Bank,
        token_id: u64,
        beneficiaries: Vec<u64>,
        amount: u128,
    ) -> (r: Result<(), Error>)
        requires
            old(self).wf(),
            old(bank).wf(),
            old(self).spec_token(token_id) is Some ==> old(bank).issuance_of(token_id) + amount
                * beneficiaries@.len() <= u128::MAX,
            old(self).spec_token(token_id) is Some ==> forall|o: u64|
                old(bank).balance_of(token_id, o) + amount * #[trigger] count_of(
                    beneficiaries@,
                    o,
                ) <= u128::MAX,
        ensures
            final(self).wf(),
            final(bank).wf(),
            r == airdrop_outcome(*old(self), token_id),
            r is Err ==> *final(self) == *old(self) && *final(bank) == *old(bank),
            r is Ok ==> {
                &&& final(bank).issuance_of(token_id) == old(bank).issuance_of(token_id) + amount
                    * beneficiaries@.len()
                &&& forall|o: u64|
                    #[trigger] final(bank).balance_of(token_id, o) == old(bank).balance_of(
                        token_id,
                        o,
                    ) + amount * count_of(beneficiaries@, o)
                &&& forall|c: u64, o: u64|
                    c != token_id ==> #[trigger] final(bank).balance_of(c, o) == old(
                        bank,
                    ).balance_of(c, o)
                &&& forall|c: u64|
                    c != token_id ==> #[trigger] final(bank).issuance_of(c) == old(
                        bank,
                    ).issuance_of(c)
                &&& final(self).events_view() == old(self).events_view().push(
                    Event::UserTokensAirDropped(
                        token_id,
                        amount,
                        old(self).spec_token(token_id).unwrap().creator,
                        beneficiaries,
                    ),
                )
            },
            final(self).spec_next_token_id() == old(self).spec_next_token_id(),
            final(self).spec_next_user_id() == old(self).spec_next_user_id(),
            forall|k: UserId| #[trigger] final(self).spec_user(k) == old(self).spec_user(k),
            forall|t: u64| #[trigger] final(self).spec_token(t) == old(self).spec_token(t),
            forall|t: u64|
                #[trigger] final(self).spec_spot_price(t) == old(self).spec_spot_price(t),
    {
        let creator: u64 = match self.token_storage.get(token_id) {
            Some(t) => t.creator,
            None => {
                return Err(Error::TokenDoesNotExist);
            },
        };
        let mut i: usize = 0;
        while i < beneficiaries.len()
            invariant
                old(self).wf(),
                old(self).spec_token(token_id) is Some,
                i <= beneficiaries@.len(),
                bank.wf(),
                *self == *old(self),
                old(bank).issuance_of(token_id) + amount * beneficiaries@.len() <= u128::MAX,
                forall|o: u64|
                    old(bank).balance_of(token_id, o) + amount * #[trigger] count_of(
                        beneficiaries@,
                        o,
                    ) <= u128::MAX,
                bank.issuance_of(token_id) == old(bank).issuance_of(token_id) + amount * (i as int),
                forall|o: u64|
                    #[trigger] bank.balance_of(token_id, o) == old(bank).balance_of(token_id, o)
                        + amount * count_of(beneficiaries@.take(i as int), o),
                forall|c: u64, o: u64|
                    c != token_id ==> #[trigger] bank.balance_of(c, o) == old(bank).balance_of(
                        c,
                        o,
                    ),
                forall|c: u64|
                    c != token_id ==> #[trigger] bank.issuance_of(c) == old(bank).issuance_of(c),
            decreases beneficiaries@.len() - i,
        {
            let b: u64 = beneficiaries[i];
            proof {
                assert forall|o: u64|
                    count_of(beneficiaries@.take(i as int + 1), o) == count_of(
                        beneficiaries@.take(i as int),
                        o,
                    ) + (if beneficiaries@[i as int] == o {
                        1int
                    } else {
                        0int
                    }) by {
                    lemma_count_of_take_step(beneficiaries@, i as int, o);
                }
                lemma_count_of_take_le(beneficiaries@, i as int + 1, b);
                lemma_count_of_nonneg(beneficiaries@.take(i as int), b);
                // issuance stays in range: amount * (i + 1) <= amount * len
                lemma_mul_le_mono_right(amount as int, i as int + 1, beneficiaries@.len() as int);
                lemma_mul_is_distributive_add(amount as int, i as int, 1);
                lemma_mul_basics(amount as int);
                // the credited balance stays in range
                lemma_mul_le_mono_right(
                    amount as int,
                    count_of(beneficiaries@.take(i as int + 1), b),
                    count_of(beneficiaries@, b),
                );
                lemma_mul_is_distributive_add(
                    amount as int,
                    count_of(beneficiaries@.take(i as int), b),
                    1,
                );
            }
            match bank.deposit(token_id, b, amount) {
                Ok(()) => {},
                Err(_) => {
                    return Err(Error::Overflow);
                },
            }
            proof {
                assert forall|o: u64|
                    #[trigger] bank.balance_of(token_id, o) == old(bank).balance_of(token_id, o)
                        + amount * count_of(beneficiaries@.take(i as int + 1), o) by {
                    lemma_count_of_take_step(beneficiaries@, i as int, o);
                    if o == b {
                        lemma_mul_is_distributive_add(
                            amount as int,
                            count_of(beneficiaries@.take(i as int), b),
                            1,
                        );
                        lemma_mul_basics(amount as int);
                    }
                }
            }
            i = i + 1;
        }
        proof {
            assert(beneficiaries@.take(beneficiaries@.len() as int) =~= beneficiaries@);
        }
        self.events.push(Event::UserTokensAirDropped(token_id, amount, creator, beneficiaries));
        Ok(())
    }

    /// Advances the token id counter and returns the fresh id.
    fn get_next_token_id(&mut self) -> (r: u64)
        requires
            old(self).spec_next_token_id() < u64::MAX,
        ensures
            r == old(self).spec_next_token_id() + 1,
            final(self).next_token_id == r,
            final(self).next_user_id == old(self).next_user_id,
            final(self).users == old(self).users,
            final(self).token_storage == old(self).token_storage,
            final(self).token_spot_price == old(self).token_spot_price,
            final(self).events == old(self).events,
    {
        self.next_token_id = self.next_token_id + 1;
        self.next_token_id
    }

    /// Advances the user id counter and returns the fresh id.
    fn get_next_user_id(&mut self) -> (r: u64)
        requires
            old(self).spec_next_user_id() < u64::MAX,
        ensures
            r == old(self).spec_next_user_id() + 1,
            final(self).next_user_id == r,
            final(self).next_token_id == old(self).next_token_id,
            final(self).users == old(self).users,
            final(self).token_storage == old(self).token_storage,
            final(self).token_spot_price == old(self).token_spot_price,
            final(self).events == old(self).events,
    {
        self.next_user_id = self.next_user_id + 1;
        self.next_user_id
    }

    /// The id the next created token will use as its curve id.
    pub fn next_token_id(&self) -> (r: u64)
        ensures
            r == self.spec_next_token_id(),
    {
        self.next_token_id
    }

    /// The id the next registered user will receive.
    pub fn next_user_id(&self) -> (r: u64)
        ensures
            r == self.spec_next_user_id(),
    {
        self.next_user_id
    }

    /// The registered user under `user_id`, if any.
    pub fn users(&self, user_id: UserId) -> (r: Option<&User>)
        requires
            self.wf(),
        ensures
            match r {
                Some(u) => self.spec_user(user_id) == Some(*u),
                None => self.spec_user(user_id) is None,
            },
    {
        self.users.get(user_id)
    }

    /// The token ledger entry under `token_id`, if any.
    pub fn token_storage(&self, token_id: u64) -> (r: Option<&TokenInfo>)
        requires
            self.wf(),
        ensures
            match r {
                Some(t) => self.spec_token(token_id) == Some(*t),
                None => self.spec_token(token_id) is None,
            },
    {
        self.token_storage.get(token_id)
    }

    /// The cached spot price of `token_id`, if one was ever computed.
    pub fn token_spot_price(&self, token_id: u64) -> (r: Option<u128>)
        requires
            self.wf(),
        ensures
            r == self.spec_spot_price(token_id),
    {
        match self.token_spot_price.get(token_id) {
            Some(p) => Some(*p),
            None => None,
        }
    }

    /// All events emitted so far, oldest first.
    pub fn events(&self) -> (r: &Vec<Event>)
        ensures
            r@ == self.events_view(),
    {
        &self.events
    }
}

/// A verified byte-for-byte copy.
pub fn clone_bytes(v: &Vec<u8>) -> (r: Vec<u8>)
    ensures
        r@ == v@,
{
    let r = v.clone();
    proof {
        assert(r@ =~= v@);
    }
    r
}

} // verus!
