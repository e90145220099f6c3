//! The content ledger: posted content, per-content view rewards and
//! per-identity reward totals.
//!
//! Posting content pays the creator a fixed creation reward; each distinct
//! viewer of a content item pays out a fixed reward to both the viewer and
//! the creator, exactly once per `(viewer, content)` pair, and a creator
//! never earns a view reward on their own content.  All payouts come from
//! the protocol reserve account through the shared `Bank` ledger, and every
//! operation is all-or-nothing: on an error nothing at all changes.

use vstd::prelude::*;

verus! {

use crate::bank::Bank;
use crate::issuance::clone_bytes;
use crate::issuance::User;
use crate::issuance::UserId;
use crate::issuance::NATIVE_CURRENCY_ID;
use crate::store::StorageMap;
use vstd::arithmetic::mul::lemma_mul_basics;
use vstd::arithmetic::mul::lemma_mul_is_distributive_add_other_way;
use vstd::arithmetic::mul::lemma_mul_upper_bound;

pub type VineId = u64;

pub type VineMetaData = Vec<u8>;

/// Reward paid to a creator when their content is posted.
pub const VINE_CREATED_REWARD_AMT: u128 = 10000000000000;

/// Reward paid to the viewer and to the creator on each distinct view.
pub const VINE_VIEWED_REWARD_AMT: u128 = 5000000000000;

/// The protocol reserve account all content rewards are paid from.
pub const NFT_PALLET_ACCOUNT: u64 = 0x4000_0000_0000_0000;

/// Deposit recorded in a lazily created default collection.
pub const CREATE_COLLECTION_DEPOSIT: u128 = 10;

/// The label of the lazily created default collection (ASCII "default").
pub open spec fn spec_default_collection_label() -> Seq<u8> {
    seq![100u8, 101u8, 102u8, 97u8, 117u8, 108u8, 116u8]
}

/// The placeholder metadata of content posted without any (ASCII
/// "metadata").
pub open spec fn spec_default_vine_metadata() -> Seq<u8> {
    seq![109u8, 101u8, 116u8, 97u8, 100u8, 97u8, 116u8, 97u8]
}

fn default_collection_label() -> (r: Vec<u8>)
    ensures
        r@ == spec_default_collection_label(),
{
    let r = vec![100u8, 101u8, 102u8, 97u8, 117u8, 108u8, 116u8];
    proof {
        assert(r@ =~= spec_default_collection_label());
    }
    r
}

fn default_vine_metadata() -> (r: Vec<u8>)
    ensures
        r@ == spec_default_vine_metadata(),
{
    let r = vec![109u8, 101u8, 116u8, 97u8, 100u8, 97u8, 116u8, 97u8];
    proof {
        assert(r@ =~= spec_default_vine_metadata());
    }
    r
}

/// Data of one content collection.
pub struct ClassData {
    pub deposit: u128,
    pub collection_name: VineMetaData,
    pub description: VineMetaData,
    pub thumbnail_image: VineMetaData,
    pub metadata: VineMetaData,
}

/// One posted content item.
pub struct VineData {
    /// The creator's identity in the user registry.
    pub email: UserId,
    pub vine_id: VineId,
    /// The creator's account, paid the per-view creator reward.
    pub vine_creator: u64,
    pub video_url: VineMetaData,
    pub thumbnail_image: VineMetaData,
    pub vine_description: VineMetaData,
    pub view_count: u64,
    pub share_count: u64,
    pub comment_count: u64,
    pub did_view: bool,
    pub metadata: VineMetaData,
}

/// A content item as carried inside a per-user listing.
pub struct Vine {
    pub email: UserId,
    pub vine_id: VineId,
    pub vine_creator: u64,
    pub video_url: Vec<u8>,
    pub thumbnail_image: Vec<u8>,
    pub vine_description: Vec<u8>,
    pub view_count: u64,
    pub share_count: u64,
    pub comment_count: u64,
    pub did_view: bool,
    pub metadata: VineMetaData,
}

/// One watched-content record of a user.
pub struct WatchedVine {
    pub vine_id: VineId,
    pub vine_length: u32,
    pub watched_length: u32,
    pub rewards: Option<u128>,
    pub is_watched: bool,
}

/// A user together with the content they created and watched.
pub struct UserVines {
    pub user: User,
    pub created_vines: Option<Vec<Vine>>,
    pub watched_vines: Option<Vec<WatchedVine>>,
}

/// Running reward totals of one identity, split by source.  Monotonically
/// non-decreasing; never reset.
#[derive(Clone, Copy, PartialEq, Eq, Structural, Debug)]
pub struct RewardsInfo {
    pub created_vine_rewards: Option<u128>,
    pub viewed_vine_rewards: Option<u128>,
}

/// Which side of a payout a reward credits.
#[derive(Clone, Copy, PartialEq, Eq, Structural, Debug)]
pub enum RewardType {
    CreatorReward,
    ViewerReward,
}

/// Domain events emitted by the content ledger, in order.
pub enum Event {
    /// (creator identity, collection id, content id)
    VineCreated(UserId, u64, u64),
    /// (viewer identity, collection id, content id)
    VineViewed(UserId, u64, u64),
    /// (creator account, collection id, collection name)
    NewNftCollectionCreated(u64, u64, VineMetaData),
    /// (number of stored content items)
    AllVinesStorageUpdated(u32),
    /// (credited identity, amount, which total it was added to)
    RewardAccrued(UserId, u128, RewardType),
}

/// Why a content operation was refused.  No error leaves any state
/// changed.
#[derive(Clone, Copy, PartialEq, Eq, Structural, Debug)]
pub enum Error {
    /// No user registered under this identity.
    UserDoesNotExist,
    /// The user has no created content to search.
    UserHasNoVines,
    /// No content item under this id.
    VineDoesNotExist,
    /// This viewer already claimed the reward for this content.
    RewardsAlreadyReceived,
    /// A creator cannot earn a view reward on their own content.
    CreatorCantBeViewer,
    /// A collection with this id already exists.
    CollectionAlreadyExists,
    /// The offered deposit is below the minimum.
    DepositTooLow,
    /// The creator's collection is missing.
    CollectionDoesNotExist,
    /// The caller does not own the collection being posted into.
    NoPermission,
    /// A creator cannot be rewarded as the viewer of their own content.
    CreatorCannotBeTheViewer,
    /// A value left the 128-bit range; never wrapped silently.
    Overflow,
    /// The protocol reserve cannot cover the reward payout.
    InsufficientReserve,
}

impl RewardsInfo {
    /// Totals before any reward: both sources empty.
    pub fn new() -> (r: Self)
        ensures
            r.created_vine_rewards is None,
            r.viewed_vine_rewards is None,
    {
        Self { created_vine_rewards: None, viewed_vine_rewards: None }
    }

    /// Adds `amt` to the creation-reward total.
    pub fn set_created_vine_rewards(&mut self, amt: u128)
        requires
            old(self).created_vine_rewards.unwrap_or(0) + amt <= u128::MAX,
        ensures
            final(self).created_vine_rewards == Some(
                (old(self).created_vine_rewards.unwrap_or(0) + amt) as u128,
            ),
            final(self).viewed_vine_rewards == old(self).viewed_vine_rewards,
    {
        match self.created_vine_rewards {
            Some(reward) => {
                self.created_vine_rewards = Some(reward + amt);
            },
            None => {
                self.created_vine_rewards = Some(amt);
            },
        }
    }

    /// Adds `amt` to the view-reward total.
    pub fn set_viewed_vine_rewards(&mut self, amt: u128)
        requires
            old(self).viewed_vine_rewards.unwrap_or(0) + amt <= u128::MAX,
        ensures
            final(self).viewed_vine_rewards == Some(
                (old(self).viewed_vine_rewards.unwrap_or(0) + amt) as u128,
            ),
            final(self).created_vine_rewards == old(self).created_vine_rewards,
    {
        match self.viewed_vine_rewards {
            Some(reward) => {
                self.viewed_vine_rewards = Some(reward + amt);
            },
            None => {
                self.viewed_vine_rewards = Some(amt);
            },
        }
    }
}

/// Previous totals, with never-credited totals read as empty.
pub open spec fn rewards_or_empty(prev: Option<RewardsInfo>) -> RewardsInfo {
    prev.unwrap_or(RewardsInfo { created_vine_rewards: None, viewed_vine_rewards: None })
}

/// The totals after crediting `amt` from the given source to possibly
/// absent previous totals.
pub open spec fn spec_add_reward(prev: Option<RewardsInfo>, amt: u128, kind: RewardType) -> RewardsInfo {
    let cur = rewards_or_empty(prev);
    match kind {
        RewardType::CreatorReward => RewardsInfo {
            created_vine_rewards: Some((cur.created_vine_rewards.unwrap_or(0) + amt) as u128),
            viewed_vine_rewards: cur.viewed_vine_rewards,
        },
        RewardType::ViewerReward => RewardsInfo {
            created_vine_rewards: cur.created_vine_rewards,
            viewed_vine_rewards: Some((cur.viewed_vine_rewards.unwrap_or(0) + amt) as u128),
        },
    }
}

/// Whether crediting `amt` from the given source stays within 128 bits.
pub open spec fn reward_add_fits(prev: Option<RewardsInfo>, amt: u128, kind: RewardType) -> bool {
    let cur = rewards_or_empty(prev);
    match kind {
        RewardType::CreatorReward => cur.created_vine_rewards.unwrap_or(0) + amt <= u128::MAX,
        RewardType::ViewerReward => cur.viewed_vine_rewards.unwrap_or(0) + amt <= u128::MAX,
    }
}

/// Reward totals only ever grow: crediting a reward, from either source,
/// never decreases either running total.
pub proof fn lemma_rewards_monotone(prev: Option<RewardsInfo>, amt: u128, kind: RewardType)
    requires
        reward_add_fits(prev, amt, kind),
    ensures
        spec_add_reward(prev, amt, kind).created_vine_rewards.unwrap_or(0) >= rewards_or_empty(
            prev,
        ).created_vine_rewards.unwrap_or(0),
        spec_add_reward(prev, amt, kind).viewed_vine_rewards.unwrap_or(0) >= rewards_or_empty(
            prev,
        ).viewed_vine_rewards.unwrap_or(0),
{
}

/// A lazily created default collection: minimum deposit, every text
/// field the fixed default label.
pub open spec fn class_is_default(c: ClassData) -> bool {
    &&& c.deposit == CREATE_COLLECTION_DEPOSIT
    &&& c.collection_name@ == spec_default_collection_label()
    &&& c.description@ == spec_default_collection_label()
    &&& c.thumbnail_image@ == spec_default_collection_label()
    &&& c.metadata@ == spec_default_collection_label()
}

/// Field-by-field description of a freshly posted content item (byte
/// payloads compared by contents, all counters zero).
pub open spec fn new_vine_matches(
    v: VineData,
    email: UserId,
    vine_id: VineId,
    creator: u64,
    video_url: Seq<u8>,
    thumbnail_image: Seq<u8>,
    vine_description: Seq<u8>,
    metadata: Seq<u8>,
) -> bool {
    &&& v.email == email
    &&& v.vine_id == vine_id
    &&& v.vine_creator == creator
    &&& v.video_url@ == video_url
    &&& v.thumbnail_image@ == thumbnail_image
    &&& v.vine_description@ == vine_description
    &&& v.view_count == 0
    &&& v.share_count == 0
    &&& v.comment_count == 0
    &&& !v.did_view
    &&& v.metadata@ == metadata
}

/// The metadata a posted item ends up with: the caller's, or the fixed
/// placeholder.
pub open spec fn spec_metadata_or_default(m: Option<Vec<u8>>) -> Seq<u8> {
    if m is Some {
        m.unwrap()@
    } else {
        spec_default_vine_metadata()
    }
}

/// The content ledger's owned state.
pub struct Pallet {
    vine_count: u64,
    next_class_id: u64,
    vines: StorageMap<(u64, VineData)>,
    collection_id_by_user: StorageMap<u64>,
    classes: StorageMap<(u64, ClassData)>,
    user_rewards: StorageMap<RewardsInfo>,
    view_records: Vec<(UserId, VineId)>,
    all_vines: Vec<VineData>,
    vine_storage: Vec<UserVines>,
    events: Vec<Event>,
}

impl Pallet {
    /// Storage tables are well-formed.
    pub closed spec fn wf(self) -> bool {
        &&& self.vines.wf()
        &&& self.collection_id_by_user.wf()
        &&& self.classes.wf()
        &&& self.user_rewards.wf()
    }

    /// The content item under `vine_id` with its collection id, if any.
    pub closed spec fn spec_vine(self, vine_id: VineId) -> Option<(u64, VineData)> {
        self.vines.spec_get(vine_id)
    }

    /// The id of `email`'s lazily created collection, if any.
    pub closed spec fn spec_collection_id(self, email: UserId) -> Option<u64> {
        self.collection_id_by_user.spec_get(email)
    }

    /// The owner and data of the collection under `class_id`, if any.
    pub closed spec fn spec_class(self, class_id: u64) -> Option<(u64, ClassData)> {
        self.classes.spec_get(class_id)
    }

    /// The reward totals of `email`, if any were ever credited.
    pub closed spec fn spec_rewards(self, email: UserId) -> Option<RewardsInfo> {
        self.user_rewards.spec_get(email)
    }

    pub closed spec fn spec_vine_count(self) -> u64 {
        self.vine_count
    }

    pub closed spec fn spec_next_class_id(self) -> u64 {
        self.next_class_id
    }

    /// Every `(viewer, content)` pair that has claimed its view reward.
    pub closed spec fn spec_view_records(self) -> Seq<(UserId, VineId)> {
        self.view_records@
    }

    /// Whether this viewer already claimed the reward for this content.
    pub open spec fn spec_has_viewed(self, viewer: UserId, vine_id: VineId) -> bool {
        exists|i: int|
            0 <= i < self.spec_view_records().len() && self.spec_view_records()[i] == (
            viewer,
            vine_id,
            )
    }

    /// The last stored snapshot of all content items.
    pub closed spec fn spec_all_vines(self) -> Seq<VineData> {
        self.all_vines@
    }

    /// The stored per-user content listings.
    pub closed spec fn spec_vine_storage(self) -> Seq<UserVines> {
        self.vine_storage@
    }

    /// All events emitted so far, oldest first.
    pub closed spec fn events_view(self) -> Seq<Event> {
        self.events@
    }

    /// A fresh ledger: no content, no records, no rewards, no events.
    pub fn new() -> (r: Pallet)
        ensures
            r.wf(),
            r.spec_vine_count() == 0,
            r.spec_next_class_id() == 0,
            forall|v: VineId| #[trigger] r.spec_vine(v) is None,
            forall|e: UserId| #[trigger] r.spec_collection_id(e) is None,
            forall|c: u64| #[trigger] r.spec_class(c) is None,
            forall|e: UserId| #[trigger] r.spec_rewards(e) is None,
            r.spec_view_records() == Seq::<(UserId, VineId)>::empty(),
            r.spec_all_vines() == Seq::<VineData>::empty(),
            r.spec_vine_storage() == Seq::<UserVines>::empty(),
            r.events_view() == Seq::<Event>::empty(),
    {
        Pallet {
            vine_count: 0,
            next_class_id: 0,
            vines: StorageMap::new(),
            collection_id_by_user: StorageMap::new(),
            classes: StorageMap::new(),
            user_rewards: StorageMap::new(),
            view_records: Vec::new(),
            all_vines: Vec::new(),
            vine_storage: Vec::new(),
            events: Vec::new(),
        }
    }

    /// Credits `reward_amt` from the given source to `email`'s running
    /// totals, materializing empty totals on first use, and emits the
    /// accrual event.
    fn update_rewards_for_user(&mut self, email: UserId, reward_amt: u128, reward_type: RewardType)
        requires
            old(self).wf(),
            reward_add_fits(old(self).spec_rewards(email), reward_amt, reward_type),
        ensures
            final(self).wf(),
            final(self).user_rewards.spec_get(email) == Some(
                spec_add_reward(old(self).spec_rewards(email), reward_amt, reward_type),
            ),
            forall|e: UserId|
                e != email ==> #[trigger] final(self).user_rewards.spec_get(e) == old(
                    self,
                ).user_rewards.spec_get(e),
            final(self).vine_count == old(self).vine_count,
            final(self).next_class_id == old(self).next_class_id,
            final(self).vines == old(self).vines,
            final(self).collection_id_by_user == old(self).collection_id_by_user,
            final(self).classes == old(self).classes,
            final(self).view_records == old(self).view_records,
            final(self).all_vines == old(self).all_vines,
            final(self).vine_storage == old(self).vine_storage,
            final(self).events@ == old(self).events@.push(
                Event::RewardAccrued(email, reward_amt, reward_type),
            ),
    {
        let mut update_reward_info: RewardsInfo = match self.user_rewards.get(email) {
            Some(info) => *info,
            None => RewardsInfo::new(),
        };
        match reward_type {
            RewardType::CreatorReward => update_reward_info.set_created_vine_rewards(reward_amt),
            RewardType::ViewerReward => update_reward_info.set_viewed_vine_rewards(reward_amt),
        }
        self.user_rewards.insert(email, update_reward_info);
        self.events.push(Event::RewardAccrued(email, reward_amt, reward_type));
    }

    /// Advances the content id counter and returns the fresh id.
    fn increment_vine_counter(&mut self) -> (r: u64)
        requires
            old(self).spec_vine_count() < u64::MAX,
        ensures
            r == old(self).spec_vine_count() + 1,
            final(self).vine_count == r,
            final(self).next_class_id == old(self).next_class_id,
            final(self).vines == old(self).vines,
            final(self).collection_id_by_user == old(self).collection_id_by_user,
            final(self).classes == old(self).classes,
            final(self).user_rewards == old(self).user_rewards,
            final(self).view_records == old(self).view_records,
            final(self).all_vines == old(self).all_vines,
            final(self).vine_storage == old(self).vine_storage,
            final(self).events == old(self).events,
    {
        self.vine_count = self.vine_count + 1;
        self.vine_count
    }

    /// The creator's collection id, creating their single default
    /// collection lazily on first use.  The caller has already checked
    /// ownership of an existing collection and counter headroom.
    fn check_and_create_user_collection_id(&mut self, email: UserId, creator: u64) -> (r: u64)
        requires
            old(self).wf(),
            old(self).spec_collection_id(email) is None ==> old(self).spec_next_class_id()
                < u64::MAX,
        ensures
            final(self).wf(),
            old(self).spec_collection_id(email) matches Some(cid) ==> r == cid && *final(self)
                == *old(self),
            old(self).spec_collection_id(email) is None ==> {
                &&& r == old(self).spec_next_class_id()
                &&& final(self).next_class_id == old(self).next_class_id + 1
                &&& final(self).collection_id_by_user.spec_get(email) == Some(r)
                &&& forall|e: UserId|
                    e != email ==> #[trigger] final(self).collection_id_by_user.spec_get(e) == old(
                        self,
                    ).collection_id_by_user.spec_get(e)
                &&& final(self).classes.spec_get(r) matches Some(cls) && cls.0 == creator
                    && class_is_default(cls.1)
                &&& forall|c: u64|
                    c != r ==> #[trigger] final(self).classes.spec_get(c) == old(
                        self,
                    ).classes.spec_get(c)
                &&& final(self).vine_count == old(self).vine_count
                &&& final(self).vines == old(self).vines
                &&& final(self).user_rewards == old(self).user_rewards
                &&& final(self).view_records == old(self).view_records
                &&& final(self).all_vines == old(self).all_vines
                &&& final(self).vine_storage == old(self).vine_storage
                &&& final(self).events == old(self).events
            },
    {
        let existing: Option<u64> = match self.collection_id_by_user.get(email) {
            Some(cid) => Some(*cid),
            None => None,
        };
        match existing {
            Some(existing_class_id) => existing_class_id,
            None => {
                let created_class_id: u64 = self.next_class_id;
                let new_class_data = ClassData {
                    deposit: CREATE_COLLECTION_DEPOSIT,
                    collection_name: default_collection_label(),
                    description: default_collection_label(),
                    thumbnail_image: default_collection_label(),
                    metadata: default_collection_label(),
                };
                self.classes.insert(created_class_id, (creator, new_class_data));
                self.next_class_id = self.next_class_id + 1;
                self.collection_id_by_user.insert(email, created_class_id);
                created_class_id
            },
        }
    }

    /// Posts a new content item for the registered identity `email`,
    /// creating its single collection lazily on first post, and pays the
    /// fixed creation reward from the protocol reserve to `creator`.
    /// Returns the fresh content id; on any error nothing at all changes.
    pub fn instant_vine_creation(
        &mut self,
        bank: &mut Bank,
        users: &crate::issuance::Pallet,
        creator: u64,
        email: UserId,
        vine_description: VineMetaData,
        video_url: VineMetaData,
        thumbnail_image: VineMetaData,
        metadata: Option<VineMetaData>,
    ) -> (r: Result<VineId, Error>)
        requires
            old(self).wf(),
            old(bank).wf(),
            users.wf(),
        ensures
            final(self).wf(),
            final(bank).wf(),
            r == vine_creation_outcome(*old(self), *old(bank), *users, creator, email),
            r is Err ==> *final(self) == *old(self) && *final(bank) == *old(bank),
            r is Ok ==> {
                let vine_id = (old(self).spec_vine_count() + 1) as u64;
                let cid = if old(self).spec_collection_id(email) is Some {
                    old(self).spec_collection_id(email).unwrap()
                } else {
                    old(self).spec_next_class_id()
                };
                let d: int = if creator == NFT_PALLET_ACCOUNT {
                    0
                } else {
                    VINE_CREATED_REWARD_AMT as int
                };
                &&& r == Ok::<VineId, Error>(vine_id)
                &&& final(self).spec_vine_count() == vine_id
                &&& final(self).spec_collection_id(email) == Some(cid)
                &&& forall|e: UserId|
                    e != email ==> #[trigger] final(self).spec_collection_id(e) == old(
                        self,
                    ).spec_collection_id(e)
                &&& old(self).spec_collection_id(email) is None
                    ==> final(self).spec_next_class_id() == old(self).spec_next_class_id() + 1
                    && (final(self).spec_class(cid) matches Some(cls) && cls.0 == creator
                    && class_is_default(cls.1))
                &&& old(self).spec_collection_id(email) is Some
                    ==> final(self).spec_next_class_id() == old(self).spec_next_class_id()
                    && final(self).spec_class(cid) == old(self).spec_class(cid)
                &&& forall|c: u64|
                    c != cid ==> #[trigger] final(self).spec_class(c) == old(self).spec_class(c)
                &&& final(self).spec_vine(vine_id) matches Some(entry) && entry.0 == cid
                    && new_vine_matches(
                    entry.1,
                    email,
                    vine_id,
                    creator,
                    video_url@,
                    thumbnail_image@,
                    vine_description@,
                    spec_metadata_or_default(metadata),
                )
                &&& forall|v: VineId|
                    v != vine_id ==> #[trigger] final(self).spec_vine(v) == old(self).spec_vine(v)
                &&& final(self).spec_rewards(email) == Some(
                    spec_add_reward(
                        old(self).spec_rewards(email),
                        VINE_CREATED_REWARD_AMT,
                        RewardType::CreatorReward,
                    ),
                )
                &&& forall|e: UserId|
                    e != email ==> #[trigger] final(self).spec_rewards(e) == old(
                        self,
                    ).spec_rewards(e)
                &&& final(self).spec_view_records() == old(self).spec_view_records()
                &&& final(self).spec_all_vines() == old(self).spec_all_vines()
                &&& final(self).spec_vine_storage() == old(self).spec_vine_storage()
                &&& final(self).events_view() == old(self).events_view().push(
                    Event::RewardAccrued(email, VINE_CREATED_REWARD_AMT, RewardType::CreatorReward),
                ).push(Event::VineCreated(email, cid, vine_id))
                &&& forall|o: u64|
                    #[trigger] final(bank).balance_of(NATIVE_CURRENCY_ID, o) as int == old(
                        bank,
                    ).balance_of(NATIVE_CURRENCY_ID, o) + (if o == creator {
                        d
                    } else {
                        0
                    }) - (if o == NFT_PALLET_ACCOUNT {
                        d
                    } else {
                        0
                    })
                &&& forall|c: u64, o: u64|
                    c != NATIVE_CURRENCY_ID ==> #[trigger] final(bank).balance_of(c, o) == old(
                        bank,
                    ).balance_of(c, o)
                &&& forall|c: u64| #[trigger] final(bank).issuance_of(c) == old(bank).issuance_of(c)
            },
    {
        match users.users(email) {
            Some(_) => {},
            None => {
                return Err(Error::UserDoesNotExist);
            },
        }
        let existing: Option<u64> = match self.collection_id_by_user.get(email) {
            Some(c) => Some(*c),
            None => None,
        };
        match existing {
            Some(cid) => {
                match self.classes.get(cid) {
                    Some(cls) => {
                        if cls.0 != creator {
                            return Err(Error::NoPermission);
                        }
                    },
                    None => {
                        return Err(Error::CollectionDoesNotExist);
                    },
                }
            },
            None => {
                if self.next_class_id == u64::MAX {
                    return Err(Error::Overflow);
                }
            },
        }
        if self.vine_count == u64::MAX {
            return Err(Error::Overflow);
        }
        if bank.free_balance(NATIVE_CURRENCY_ID, NFT_PALLET_ACCOUNT) < VINE_CREATED_REWARD_AMT {
            return Err(Error::InsufficientReserve);
        }
        if creator != NFT_PALLET_ACCOUNT {
            let creator_balance: u128 = bank.free_balance(NATIVE_CURRENCY_ID, creator);
            if creator_balance > u128::MAX - VINE_CREATED_REWARD_AMT {
                return Err(Error::Overflow);
            }
        }
        let prev_created: u128 = match self.user_rewards.get(email) {
            Some(info) => match info.created_vine_rewards {
                Some(v) => v,
                None => 0,
            },
            None => 0,
        };
        if prev_created > u128::MAX - VINE_CREATED_REWARD_AMT {
            return Err(Error::Overflow);
        }
        // Every check passed; from here on the operation cannot fail.
        let curr_collection_id: u64 = self.check_and_create_user_collection_id(email, creator);
        let vine_id: u64 = self.increment_vine_counter();
        let meta: Vec<u8> = match metadata {
            Some(m) => m,
            None => default_vine_metadata(),
        };
        let new_vine = VineData {
            email,
            vine_id,
            vine_creator: creator,
            video_url,
            thumbnail_image,
            vine_description,
            view_count: 0,
            share_count: 0,
            comment_count: 0,
            did_view: false,
            metadata: meta,
        };
        self.vines.insert(vine_id, (curr_collection_id, new_vine));
        match bank.transfer(
            NATIVE_CURRENCY_ID,
            NFT_PALLET_ACCOUNT,
            creator,
            VINE_CREATED_REWARD_AMT,
        ) {
            Ok(()) => {},
            Err(_) => {
                return Err(Error::InsufficientReserve);
            },
        }
        self.update_rewards_for_user(email, VINE_CREATED_REWARD_AMT, RewardType::CreatorReward);
        self.events.push(Event::VineCreated(email, curr_collection_id, vine_id));
        Ok(vine_id)
    }

    /// Whether `viewer` already claimed the reward for `vine_id`.
    pub fn has_viewed(&self, viewer: UserId, vine_id: VineId) -> (r: bool)
        ensures
            r == self.spec_has_viewed(viewer, vine_id),
    {
        let mut i: usize = 0;
        while i < self.view_records.len()
            invariant
                i <= self.view_records@.len(),
                forall|j: int|
                    0 <= j < i ==> #[trigger] self.view_records@[j] != (viewer, vine_id),
            decreases self.view_records@.len() - i,
        {
            let rec = self.view_records[i];
            if rec.0 == viewer && rec.1 == vine_id {
                proof {
                    assert(self.spec_view_records()[i as int] == (viewer, vine_id));
                }
                return true;
            }
            i = i + 1;
        }
        false
    }

    /// Registers one view of `vine_id` by the registered identity
    /// `viewer_email` (paid to account `viewer`): bumps the view count,
    /// records the `(viewer, content)` pair so the reward can never be
    /// claimed twice, and pays the fixed view reward from the protocol
    /// reserve to both the viewer and the content's creator.  A creator
    /// viewing their own content is refused and nothing is counted.
    /// On any error nothing at all changes.
    pub fn mark_vine_as_viwed(
        &mut self,
        bank: &mut Bank,
        users: &crate::issuance::Pallet,
        viewer: u64,
        viewer_email: UserId,
        vine_id: VineId,
    ) -> (r: Result<(), Error>)
        requires
            old(self).wf(),
            old(bank).wf(),
            users.wf(),
        ensures
            final(self).wf(),
            final(bank).wf(),
            r == mark_view_outcome(*old(self), *old(bank), *users, viewer, viewer_email, vine_id),
            r is Err ==> *final(self) == *old(self) && *final(bank) == *old(bank),
            r is Ok ==> {
                let entry = old(self).spec_vine(vine_id).unwrap();
                let data = entry.1;
                let creator_acct = data.vine_creator;
                let d1: int = if viewer == NFT_PALLET_ACCOUNT {
                    0
                } else {
                    VINE_VIEWED_REWARD_AMT as int
                };
                let d2: int = if creator_acct == NFT_PALLET_ACCOUNT {
                    0
                } else {
                    VINE_VIEWED_REWARD_AMT as int
                };
                &&& final(self).spec_vine(vine_id) matches Some(e2) && e2.0 == entry.0
                    && e2.1.view_count == data.view_count + 1 && e2.1.did_view && e2.1.email
                    == data.email && e2.1.vine_id == data.vine_id && e2.1.vine_creator
                    == data.vine_creator && e2.1.video_url == data.video_url
                    && e2.1.thumbnail_image == data.thumbnail_image && e2.1.vine_description
                    == data.vine_description && e2.1.share_count == data.share_count
                    && e2.1.comment_count == data.comment_count && e2.1.metadata == data.metadata
                &&& forall|v: VineId|
                    v != vine_id ==> #[trigger] final(self).spec_vine(v) == old(self).spec_vine(v)
                &&& final(self).spec_view_records() == old(self).spec_view_records().push(
                    (viewer_email, vine_id),
                )
                &&& final(self).spec_has_viewed(viewer_email, vine_id)
                &&& final(self).spec_rewards(viewer_email) == Some(
                    spec_add_reward(
                        old(self).spec_rewards(viewer_email),
                        VINE_VIEWED_REWARD_AMT,
                        RewardType::ViewerReward,
                    ),
                )
                &&& final(self).spec_rewards(data.email) == Some(
                    spec_add_reward(
                        old(self).spec_rewards(data.email),
                        VINE_VIEWED_REWARD_AMT,
                        RewardType::CreatorReward,
                    ),
                )
                &&& forall|e: UserId|
                    e != viewer_email && e != data.email ==> #[trigger] final(self).spec_rewards(e)
                        == old(self).spec_rewards(e)
                &&& forall|o: u64|
                    #[trigger] final(bank).balance_of(NATIVE_CURRENCY_ID, o) as int == old(
                        bank,
                    ).balance_of(NATIVE_CURRENCY_ID, o) + (if o == viewer {
                        d1
                    } else {
                        0
                    }) + (if o == creator_acct {
                        d2
                    } else {
                        0
                    }) - (if o == NFT_PALLET_ACCOUNT {
                        d1 + d2
                    } else {
                        0
                    })
                &&& forall|c: u64, o: u64|
                    c != NATIVE_CURRENCY_ID ==> #[trigger] final(bank).balance_of(c, o) == old(
                        bank,
                    ).balance_of(c, o)
                &&& forall|c: u64| #[trigger] final(bank).issuance_of(c) == old(bank).issuance_of(c)
                &&& final(self).spec_vine_count() == old(self).spec_vine_count()
                &&& final(self).spec_next_class_id() == old(self).spec_next_class_id()
                &&& forall|e: UserId|
                    #[trigger] final(self).spec_collection_id(e) == old(self).spec_collection_id(e)
                &&& forall|c: u64| #[trigger] final(self).spec_class(c) == old(self).spec_class(c)
                &&& final(self).spec_all_vines() == old(self).spec_all_vines()
                &&& final(self).spec_vine_storage() == old(self).spec_vine_storage()
                &&& final(self).events_view() == old(self).events_view().push(
                    Event::RewardAccrued(
                        viewer_email,
                        VINE_VIEWED_REWARD_AMT,
                        RewardType::ViewerReward,
                    ),
                ).push(
                    Event::RewardAccrued(
                        data.email,
                        VINE_VIEWED_REWARD_AMT,
                        RewardType::CreatorReward,
                    ),
                ).push(Event::VineViewed(viewer_email, entry.0, vine_id))
            },
    {
        match users.users(viewer_email) {
            Some(_) => {},
            None => {
                return Err(Error::UserDoesNotExist);
            },
        }
        let (creator_email, creator_acct, view_count) = match self.vines.get(vine_id) {
            Some(e) => (e.1.email, e.1.vine_creator, e.1.view_count),
            None => {
                return Err(Error::VineDoesNotExist);
            },
        };
        if viewer_email == creator_email {
            return Err(Error::CreatorCannotBeTheViewer);
        }
        if self.has_viewed(viewer_email, vine_id) {
            return Err(Error::RewardsAlreadyReceived);
        }
        if view_count == u64::MAX {
            return Err(Error::Overflow);
        }
        let pot_balance: u128 = bank.free_balance(NATIVE_CURRENCY_ID, NFT_PALLET_ACCOUNT);
        if pot_balance < VINE_VIEWED_REWARD_AMT {
            return Err(Error::InsufficientReserve);
        }
        let pot_after_first: u128 = if viewer == NFT_PALLET_ACCOUNT {
            pot_balance
        } else {
            pot_balance - VINE_VIEWED_REWARD_AMT
        };
        if pot_after_first < VINE_VIEWED_REWARD_AMT {
            return Err(Error::InsufficientReserve);
        }
        if viewer != NFT_PALLET_ACCOUNT {
            let viewer_balance: u128 = bank.free_balance(NATIVE_CURRENCY_ID, viewer);
            if viewer_balance > u128::MAX - VINE_VIEWED_REWARD_AMT {
                return Err(Error::Overflow);
            }
        }
        if creator_acct != NFT_PALLET_ACCOUNT {
            let creator_balance: u128 = bank.free_balance(NATIVE_CURRENCY_ID, creator_acct);
            let first_credit: u128 = if viewer != NFT_PALLET_ACCOUNT && creator_acct == viewer {
                VINE_VIEWED_REWARD_AMT
            } else {
                0
            };
            if creator_balance + first_credit > u128::MAX - VINE_VIEWED_REWARD_AMT {
                return Err(Error::Overflow);
            }
        }
        let viewer_viewed: u128 = match self.user_rewards.get(viewer_email) {
            Some(info) => match info.viewed_vine_rewards {
                Some(v) => v,
                None => 0,
            },
            None => 0,
        };
        if viewer_viewed > u128::MAX - VINE_VIEWED_REWARD_AMT {
            return Err(Error::Overflow);
        }
        let creator_created: u128 = match self.user_rewards.get(creator_email) {
            Some(info) => match info.created_vine_rewards {
                Some(v) => v,
                None => 0,
            },
            None => 0,
        };
        if creator_created > u128::MAX - VINE_VIEWED_REWARD_AMT {
            return Err(Error::Overflow);
        }
        // Every check passed; from here on the operation cannot fail.
        let entry: (u64, VineData) = match self.vines.take(vine_id) {
            Some(e) => e,
            None => {
                return Err(Error::VineDoesNotExist);
            },
        };
        let vine_collection_id: u64 = entry.0;
        let mut token_data: VineData = entry.1;
        token_data.view_count = token_data.view_count + 1;
        token_data.did_view = true;
        self.vines.insert(vine_id, (vine_collection_id, token_data));
        self.view_records.push((viewer_email, vine_id));
        match bank.transfer(
            NATIVE_CURRENCY_ID,
            NFT_PALLET_ACCOUNT,
            viewer,
            VINE_VIEWED_REWARD_AMT,
        ) {
            Ok(()) => {},
            Err(_) => {
                return Err(Error::InsufficientReserve);
            },
        }
        self.update_rewards_for_user(viewer_email, VINE_VIEWED_REWARD_AMT, RewardType::ViewerReward);
        match bank.transfer(
            NATIVE_CURRENCY_ID,
            NFT_PALLET_ACCOUNT,
            creator_acct,
            VINE_VIEWED_REWARD_AMT,
        ) {
            Ok(()) => {},
            Err(_) => {
                return Err(Error::InsufficientReserve);
            },
        }
        self.update_rewards_for_user(
            creator_email,
            VINE_VIEWED_REWARD_AMT,
            RewardType::CreatorReward,
        );
        self.events.push(Event::VineViewed(viewer_email, vine_collection_id, vine_id));
        proof {
            assert(self.spec_view_records()[self.spec_view_records().len() - 1] == (
            viewer_email,
            vine_id,
            ));
        }
        Ok(())
    }

    /// The stored content items as `(content id, (collection id, data))`
    /// entries, in insertion order.
    pub closed spec fn spec_vine_entries(self) -> Seq<(VineId, (u64, VineData))> {
        self.vines.entries_view()
    }

    /// Snapshots every stored content item into the all-content cache and
    /// reports how many there are.
    pub fn get_all_vines(&mut self) -> (r: Result<(), Error>)
        requires
            old(self).wf(),
        ensures
            final(self).wf(),
            r is Ok,
            final(self).spec_all_vines().len() == old(self).spec_vine_entries().len(),
            forall|i: int|
                0 <= i < old(self).spec_vine_entries().len() ==> vine_data_view_eq(
                    #[trigger] final(self).spec_all_vines()[i],
                    old(self).spec_vine_entries()[i].1.1,
                ),
            final(self).events_view() == old(self).events_view().push(
                Event::AllVinesStorageUpdated(old(self).spec_vine_entries().len() as u32),
            ),
            final(self).spec_vine_count() == old(self).spec_vine_count(),
            final(self).spec_next_class_id() == old(self).spec_next_class_id(),
            forall|v: VineId| #[trigger] final(self).spec_vine(v) == old(self).spec_vine(v),
            forall|e: UserId|
                #[trigger] final(self).spec_collection_id(e) == old(self).spec_collection_id(e),
            forall|c: u64| #[trigger] final(self).spec_class(c) == old(self).spec_class(c),
            forall|e: UserId| #[trigger] final(self).spec_rewards(e) == old(self).spec_rewards(e),
            final(self).spec_view_records() == old(self).spec_view_records(),
            final(self).spec_vine_storage() == old(self).spec_vine_storage(),
    {
        let mut collected: Vec<VineData> = Vec::new();
        let n: usize = self.vines.len();
        let mut i: usize = 0;
        while i < n
            invariant
                i <= n,
                n == self.spec_vine_entries().len(),
                self.wf(),
                *self == *old(self),
                collected@.len() == i,
                forall|j: int|
                    0 <= j < i ==> vine_data_view_eq(
                        #[trigger] collected@[j],
                        self.spec_vine_entries()[j].1.1,
                    ),
            decreases n - i,
        {
            let entry = self.vines.entry_at(i);
            collected.push(clone_vine_data(&entry.1.1));
            i = i + 1;
        }
        let count: u32 = collected.len() as u32;
        self.all_vines = collected;
        self.events.push(Event::AllVinesStorageUpdated(count));
        Ok(())
    }

    /// Upserts one per-user listing: replaces the first listing with the
    /// same user id, or appends when there is none.
    pub fn update_all_vine_storage_vec(&mut self, updated_user_vine: UserVines)
        requires
            old(self).wf(),
        ensures
            final(self).wf(),
            (exists|i: int|
                0 <= i < old(self).spec_vine_storage().len()
                    && (#[trigger] old(self).spec_vine_storage()[i]).user.id
                    == updated_user_vine.user.id) ==> exists|i: int|
                {
                    &&& 0 <= i < old(self).spec_vine_storage().len()
                    &&& (forall|j: int|
                        0 <= j < i ==> (#[trigger] old(self).spec_vine_storage()[j]).user.id
                            != updated_user_vine.user.id)
                    &&& (#[trigger] old(self).spec_vine_storage()[i]).user.id
                        == updated_user_vine.user.id
                    &&& final(self).spec_vine_storage() == old(self).spec_vine_storage().update(
                        i,
                        updated_user_vine,
                    )
                },
            (forall|i: int|
                0 <= i < old(self).spec_vine_storage().len()
                    ==> (#[trigger] old(self).spec_vine_storage()[i]).user.id
                    != updated_user_vine.user.id) ==> final(self).spec_vine_storage() == old(
                self,
            ).spec_vine_storage().push(updated_user_vine),
            final(self).spec_vine_count() == old(self).spec_vine_count(),
            final(self).spec_next_class_id() == old(self).spec_next_class_id(),
            forall|v: VineId| #[trigger] final(self).spec_vine(v) == old(self).spec_vine(v),
            forall|e: UserId|
                #[trigger] final(self).spec_collection_id(e) == old(self).spec_collection_id(e),
            forall|c: u64| #[trigger] final(self).spec_class(c) == old(self).spec_class(c),
            forall|e: UserId| #[trigger] final(self).spec_rewards(e) == old(self).spec_rewards(e),
            final(self).spec_view_records() == old(self).spec_view_records(),
            final(self).spec_all_vines() == old(self).spec_all_vines(),
            final(self).events_view() == old(self).events_view(),
    {
        let n: usize = self.vine_storage.len();
        let mut i: usize = 0;
        while i < n
            invariant
                i <= n,
                n == self.spec_vine_storage().len(),
                self.wf(),
                *self == *old(self),
                forall|j: int|
                    0 <= j < i ==> (#[trigger] self.spec_vine_storage()[j]).user.id
                        != updated_user_vine.user.id,
            decreases n - i,
        {
            if self.vine_storage[i].user.id == updated_user_vine.user.id {
                self.vine_storage[i] = updated_user_vine;
                return ;
            }
            i = i + 1;
        }
        self.vine_storage.push(updated_user_vine);
    }

    /// The number of content items ever posted.
    pub fn vine_count(&self) -> (r: u64)
        ensures
            r == self.spec_vine_count(),
    {
        self.vine_count
    }

    /// The content item under `vine_id` with its collection id, if any.
    pub fn get_vines(&self, vine_id: VineId) -> (r: Option<&(u64, VineData)>)
        requires
            self.wf(),
        ensures
            match r {
                Some(e) => self.spec_vine(vine_id) == Some(*e),
                None => self.spec_vine(vine_id) is None,
            },
    {
        self.vines.get(vine_id)
    }

    /// The id of `email`'s lazily created collection, if any.
    pub fn get_collection_id_by_user(&self, email: UserId) -> (r: Option<u64>)
        requires
            self.wf(),
        ensures
            r == self.spec_collection_id(email),
    {
        match self.collection_id_by_user.get(email) {
            Some(c) => Some(*c),
            None => None,
        }
    }

    /// The reward totals of `email`, if any were ever credited.
    pub fn get_user_rewards_info(&self, email: UserId) -> (r: Option<RewardsInfo>)
        requires
            self.wf(),
        ensures
            r == self.spec_rewards(email),
    {
        match self.user_rewards.get(email) {
            Some(info) => Some(*info),
            None => None,
        }
    }

    /// The last stored snapshot of all content items.
    pub fn all_vines(&self) -> (r: &Vec<VineData>)
        ensures
            r@ == self.spec_all_vines(),
    {
        &self.all_vines
    }

    /// The stored per-user content listings.
    pub fn vine_storage(&self) -> (r: &Vec<UserVines>)
        ensures
            r@ == self.spec_vine_storage(),
    {
        &self.vine_storage
    }

    /// All events emitted so far, oldest first.
    pub fn events(&self) -> (r: &Vec<Event>)
        ensures
            r@ == self.events_view(),
    {
        &self.events
    }
}

/// The reward for one watched content item: one unit when it was watched
/// to the end, nothing otherwise.
pub fn calculate_viewer_rewards(watched_length: u32, vine_length: u32) -> (r: u128)
    ensures
        r == if watched_length == vine_length {
            1u128
        } else {
            0u128
        },
{
    if watched_length == vine_length {
        1
    } else {
        0
    }
}

/// The creator reward over a list of created content: the total of all
/// its view counts.
pub fn calculate_creator_rewards(created_vines: Vec<Vine>) -> (r: u128)
    ensures
        r == sum_view_counts(created_vines@),
{
    let mut rewards: u128 = 0;
    let n: usize = created_vines.len();
    let mut i: usize = 0;
    proof {
        assert(created_vines@.take(0) =~= Seq::<Vine>::empty());
    }
    while i < n
        invariant
            i <= n,
            n == created_vines@.len(),
            rewards == sum_view_counts(created_vines@.take(i as int)),
        decreases n - i,
    {
        proof {
            lemma_sum_take_step(created_vines@, i as int);
            lemma_sum_take_bound(created_vines@, i as int + 1);
            lemma_mul_upper_bound(
                i as int + 1,
                u64::MAX as int,
                u64::MAX as int,
                u64::MAX as int,
            );
        }
        rewards = rewards + (created_vines[i].view_count as u128);
        i = i + 1;
    }
    proof {
        assert(created_vines@.take(n as int) =~= created_vines@);
    }
    rewards
}

/// Whether a list of content items holds one with the given id.
fn vines_list_contains(cv: &Vec<Vine>, vine_id: VineId) -> (r: bool)
    ensures
        r == exists|j: int| 0 <= j < cv@.len() && cv@[j].vine_id == vine_id,
{
    let mut j: usize = 0;
    while j < cv.len()
        invariant
            j <= cv@.len(),
            forall|k: int| 0 <= k < j ==> (#[trigger] cv@[k]).vine_id != vine_id,
        decreases cv@.len() - j,
    {
        if cv[j].vine_id == vine_id {
            return true;
        }
        j = j + 1;
    }
    false
}

/// View idempotence: once a `(viewer, content)` pair has claimed its
/// reward — the state left behind by any successful `mark_vine_as_viwed`
/// call — a second call for the same pair is refused as already
/// rewarded, and by that operation's contract a refused call leaves the
/// ledger, the reward totals and the bank exactly unchanged.
///
/// The premises are the facts `mark_vine_as_viwed` ensures of a
/// successful call: the pair was appended to the view records and the
/// content item kept its creator.
pub proof fn lemma_view_idempotent(
    pre: Pallet,
    post: Pallet,
    pre_b: Bank,
    post_b: Bank,
    users: crate::issuance::Pallet,
    viewer: u64,
    viewer_email: UserId,
    vine_id: VineId,
)
    requires
        mark_view_outcome(pre, pre_b, users, viewer, viewer_email, vine_id) == Ok::<(), Error>(()),
        post.spec_view_records() == pre.spec_view_records().push((viewer_email, vine_id)),
        post.spec_vine(vine_id) is Some,
        post.spec_vine(vine_id).unwrap().1.email == pre.spec_vine(vine_id).unwrap().1.email,
    ensures
        mark_view_outcome(post, post_b, users, viewer, viewer_email, vine_id) == Err::<
            (),
            Error,
        >(Error::RewardsAlreadyReceived),
{
    let n = pre.spec_view_records().len();
    assert(post.spec_view_records()[n as int] == (viewer_email, vine_id));
    assert(post.spec_has_viewed(viewer_email, vine_id));
}

/// The first per-user listing whose created content holds `vine_id`, or
/// a not-found failure when no listing does.
pub fn get_user_vine(all_vines: Vec<UserVines>, vine_id: VineId) -> (r: Result<UserVines, Error>)
    ensures
        match r {
            Ok(uv) => exists|i: int|
                {
                    &&& 0 <= i < all_vines@.len()
                    &&& (forall|j: int|
                        0 <= j < i ==> !uv_has_created_vine(#[trigger] all_vines@[j], vine_id))
                    &&& uv_has_created_vine(#[trigger] all_vines@[i], vine_id)
                    &&& uv == all_vines@[i]
                },
            Err(e) => e == Error::VineDoesNotExist && forall|i: int|
                0 <= i < all_vines@.len() ==> !uv_has_created_vine(
                    #[trigger] all_vines@[i],
                    vine_id,
                ),
        },
{
    let mut listings = all_vines;
    let n: usize = listings.len();
    let mut i: usize = 0;
    while i < n
        invariant
            i <= n,
            listings@ == all_vines@,
            n == listings@.len(),
            forall|j: int| 0 <= j < i ==> !uv_has_created_vine(#[trigger] all_vines@[j], vine_id),
        decreases n - i,
    {
        let found: bool = match &listings[i].created_vines {
            Some(cv) => vines_list_contains(cv, vine_id),
            None => false,
        };
        if found {
            let uv = listings.swap_remove(i);
            return Ok(uv);
        }
        i = i + 1;
    }
    Err(Error::VineDoesNotExist)
}

/// Two content items carrying the same data, byte payloads compared by
/// contents.
pub open spec fn vine_data_view_eq(a: VineData, b: VineData) -> bool {
    &&& a.email == b.email
    &&& a.vine_id == b.vine_id
    &&& a.vine_creator == b.vine_creator
    &&& a.video_url@ == b.video_url@
    &&& a.thumbnail_image@ == b.thumbnail_image@
    &&& a.vine_description@ == b.vine_description@
    &&& a.view_count == b.view_count
    &&& a.share_count == b.share_count
    &&& a.comment_count == b.comment_count
    &&& a.did_view == b.did_view
    &&& a.metadata@ == b.metadata@
}

/// A verified deep copy of a content item.
fn clone_vine_data(v: &VineData) -> (r: VineData)
    ensures
        vine_data_view_eq(r, *v),
{
    VineData {
        email: v.email,
        vine_id: v.vine_id,
        vine_creator: v.vine_creator,
        video_url: clone_bytes(&v.video_url),
        thumbnail_image: clone_bytes(&v.thumbnail_image),
        vine_description: clone_bytes(&v.vine_description),
        view_count: v.view_count,
        share_count: v.share_count,
        comment_count: v.comment_count,
        did_view: v.did_view,
        metadata: clone_bytes(&v.metadata),
    }
}

/// Whether this per-user listing holds a created content item with the
/// given id.
pub open spec fn uv_has_created_vine(uv: UserVines, vine_id: VineId) -> bool {
    uv.created_vines matches Some(cv) && exists|j: int| 0 <= j < cv@.len() && cv@[j].vine_id
        == vine_id
}

/// The total view count over a list of content items.
pub open spec fn sum_view_counts(s: Seq<Vine>) -> int
    decreases s.len(),
{
    if s.len() == 0 {
        0
    } else {
        sum_view_counts(s.drop_last()) + s.last().view_count
    }
}

/// Extending a prefix by one element grows the sum by its view count.
proof fn lemma_sum_take_step(s: Seq<Vine>, i: int)
    requires
        0 <= i < s.len(),
    ensures
        sum_view_counts(s.take(i + 1)) == sum_view_counts(s.take(i)) + s[i].view_count,
{
    let t = s.take(i + 1);
    assert(t.drop_last() =~= s.take(i));
    assert(t.last() == s[i]);
}

/// The sum over a prefix of `j` items is between 0 and `j` times the
/// largest possible count.
proof fn lemma_sum_take_bound(s: Seq<Vine>, j: int)
    requires
        0 <= j <= s.len(),
    ensures
        0 <= sum_view_counts(s.take(j)) <= j * (u64::MAX as int),
    decreases j,
{
    if j == 0 {
        assert(s.take(0) =~= Seq::<Vine>::empty());
    } else {
        lemma_sum_take_bound(s, j - 1);
        lemma_sum_take_step(s, j - 1);
        lemma_mul_is_distributive_add_other_way(u64::MAX as int, j - 1, 1);
        lemma_mul_basics(u64::MAX as int);
    }
}

/// Whether the protocol reserve covers both halves of the dual view
/// payout: `amt` to `a1`, then `amt` to `a2`, paid in that order.
pub open spec fn dual_payout_pot_ok(b: Bank, a1: u64, amt: u128) -> bool {
    let pb = b.balance_of(NATIVE_CURRENCY_ID, NFT_PALLET_ACCOUNT);
    let pb1: int = if a1 == NFT_PALLET_ACCOUNT {
        pb as int
    } else {
        pb - amt
    };
    pb >= amt && pb1 >= amt
}

/// Whether both credited balances of the dual view payout stay within
/// 128 bits, accounting for `a2` already having been credited once when
/// it is the same account as `a1`.
pub open spec fn dual_payout_credit_ok(b: Bank, a1: u64, a2: u64, amt: u128) -> bool {
    let credit1: int = if a1 != NFT_PALLET_ACCOUNT && a2 == a1 {
        amt as int
    } else {
        0
    };
    &&& (a1 == NFT_PALLET_ACCOUNT || b.balance_of(NATIVE_CURRENCY_ID, a1) + amt <= u128::MAX)
    &&& (a2 == NFT_PALLET_ACCOUNT || b.balance_of(NATIVE_CURRENCY_ID, a2) + credit1 + amt
        <= u128::MAX)
}

/// Exactly the result of `mark_vine_as_viwed`: which error on which
/// state, in check order.  The one-shot `(viewer, content)` replay guard
/// and the no-self-reward rule sit ahead of any payout.
pub open spec fn mark_view_outcome(
    pre_s: Pallet,
    pre_b: Bank,
    users: crate::issuance::Pallet,
    viewer: u64,
    viewer_email: UserId,
    vine_id: VineId,
) -> Result<(), Error> {
    if users.spec_user(viewer_email) is None {
        Err(Error::UserDoesNotExist)
    } else if pre_s.spec_vine(vine_id) is None {
        Err(Error::VineDoesNotExist)
    } else {
        let data = pre_s.spec_vine(vine_id).unwrap().1;
        if viewer_email == data.email {
            Err(Error::CreatorCannotBeTheViewer)
        } else if pre_s.spec_has_viewed(viewer_email, vine_id) {
            Err(Error::RewardsAlreadyReceived)
        } else if data.view_count == u64::MAX {
            Err(Error::Overflow)
        } else if !dual_payout_pot_ok(pre_b, viewer, VINE_VIEWED_REWARD_AMT) {
            Err(Error::InsufficientReserve)
        } else if !dual_payout_credit_ok(pre_b, viewer, data.vine_creator, VINE_VIEWED_REWARD_AMT) {
            Err(Error::Overflow)
        } else if !reward_add_fits(
            pre_s.spec_rewards(viewer_email),
            VINE_VIEWED_REWARD_AMT,
            RewardType::ViewerReward,
        ) {
            Err(Error::Overflow)
        } else if !reward_add_fits(
            pre_s.spec_rewards(data.email),
            VINE_VIEWED_REWARD_AMT,
            RewardType::CreatorReward,
        ) {
            Err(Error::Overflow)
        } else {
            Ok(())
        }
    }
}

/// Exactly the result of `instant_vine_creation`: which error on which
/// state, in check order, and the fresh content id on success.
pub open spec fn vine_creation_outcome(
    pre_s: Pallet,
    pre_b: Bank,
    users: crate::issuance::Pallet,
    creator: u64,
    email: UserId,
) -> Result<VineId, Error> {
    if users.spec_user(email) is None {
        Err(Error::UserDoesNotExist)
    } else if pre_s.spec_collection_id(email) matches Some(cid) && pre_s.spec_class(cid)
        is None {
        Err(Error::CollectionDoesNotExist)
    } else if pre_s.spec_collection_id(email) matches Some(cid) && pre_s.spec_class(
        cid,
    ).unwrap().0 != creator {
        Err(Error::NoPermission)
    } else if pre_s.spec_collection_id(email) is None && pre_s.spec_next_class_id()
        == u64::MAX {
        Err(Error::Overflow)
    } else if pre_s.spec_vine_count() == u64::MAX {
        Err(Error::Overflow)
    } else if pre_b.balance_of(NATIVE_CURRENCY_ID, NFT_PALLET_ACCOUNT)
        < VINE_CREATED_REWARD_AMT {
        Err(Error::InsufficientReserve)
    } else if creator != NFT_PALLET_ACCOUNT && pre_b.balance_of(NATIVE_CURRENCY_ID, creator)
        + VINE_CREATED_REWARD_AMT > u128::MAX {
        Err(Error::Overflow)
    } else if !reward_add_fits(
        pre_s.spec_rewards(email),
        VINE_CREATED_REWARD_AMT,
        RewardType::CreatorReward,
    ) {
        Err(Error::Overflow)
    } else {
        Ok((pre_s.spec_vine_count() + 1) as u64)
    }
}

} // verus!
