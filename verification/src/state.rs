use vstd::prelude::*;

use crate::types::{ContractError, ProfileView, TipView};
use crate::validation::{valid_username, MAX_TEXT_LEN};

verus! {

/// Ledgers for which a stored tip stays readable: 7 days of 5-second
/// ledgers, 7 x 86 400 / 5.
pub const TIP_TTL_LEDGERS: u32 = 120_960;

/// The credit score of a freshly registered profile.
pub const INITIAL_CREDIT_SCORE: u32 = 40;

/// A stored tip: the record and the last ledger in which it can be read.
pub struct StoredTipView {
    pub tip: TipView,
    pub live_until: u32,
}

/// The whole state of the contract, as mathematical values.
pub struct TipzView {
    /// Registered profiles, in order of registration.
    pub profiles: Seq<ProfileView>,
    /// Tip records by id, expired ones included until the host drops them.
    pub tips: Map<u32, StoredTipView>,
    /// The id the next tip gets: the number of tips ever stored.
    pub tip_count: u32,
    /// Sum of all tips ever sent.
    pub tips_volume: i128,
}

/// The last ledger in which a tip stored in ledger `ledger` can be read.
pub open spec fn live_until_after(ledger: u32) -> u32 {
    if ledger + TIP_TTL_LEDGERS > u32::MAX {
        u32::MAX
    } else {
        (ledger + TIP_TTL_LEDGERS) as u32
    }
}

/// The counter after one more tip: it stops at `u32::MAX`.
pub open spec fn next_count(count: u32) -> u32 {
    if count == u32::MAX {
        u32::MAX
    } else {
        (count + 1) as u32
    }
}

/// The profile that a successful registration creates.
pub open spec fn new_profile(
    owner: Seq<u8>,
    username: Seq<u8>,
    display_name: Seq<u8>,
    bio: Seq<u8>,
    image_url: Seq<u8>,
    x_handle: Seq<u8>,
) -> ProfileView {
    ProfileView {
        owner,
        username,
        display_name,
        bio,
        image_url,
        x_handle,
        balance: 0,
        total_tips_received: 0,
        total_tips_count: 0,
        credit_score: INITIAL_CREDIT_SCORE,
    }
}

/// A profile after it received a tip of `amount`.
pub open spec fn credited(p: ProfileView, amount: i128) -> ProfileView {
    ProfileView {
        balance: (p.balance + amount) as i128,
        total_tips_received: (p.total_tips_received + amount) as i128,
        total_tips_count: (p.total_tips_count + 1) as u32,
        ..p
    }
}

/// The profiles after `creator` received a tip of `amount`.
pub open spec fn credit_profiles(ps: Seq<ProfileView>, creator: Seq<u8>, amount: i128) -> Seq<
    ProfileView,
> {
    ps.map_values(
        |p: ProfileView|
            if p.owner == creator {
                credited(p, amount)
            } else {
                p
            },
    )
}

/// No two stored tips in `ts` carry the same id.
pub open spec fn distinct_tip_ids(ts: Seq<StoredTipView>) -> bool {
    forall|i: int, j: int|
        0 <= i < ts.len() && 0 <= j < ts.len() && i != j ==> #[trigger] ts[i].tip.id
            != #[trigger] ts[j].tip.id
}

/// The stored tips of `ts`, filed under their ids.
pub open spec fn tips_by_id(ts: Seq<StoredTipView>) -> Map<u32, StoredTipView> {
    Map::new(
        |k: u32| exists|i: int| 0 <= i < ts.len() && #[trigger] ts[i].tip.id == k,
        |k: u32| ts[choose|i: int| 0 <= i < ts.len() && #[trigger] ts[i].tip.id == k],
    )
}

/// The state that a snapshot of its parts describes.
pub open spec fn snapshot_view(
    profiles: Seq<ProfileView>,
    tips: Seq<StoredTipView>,
    tip_count: u32,
    tips_volume: i128,
) -> TipzView {
    TipzView { profiles, tips: tips_by_id(tips), tip_count, tips_volume }
}

/// A snapshot describes a well-formed state, with no id given twice.
pub open spec fn snapshot_ok(
    profiles: Seq<ProfileView>,
    tips: Seq<StoredTipView>,
    tip_count: u32,
    tips_volume: i128,
) -> bool {
    &&& distinct_tip_ids(tips)
    &&& snapshot_view(profiles, tips, tip_count, tips_volume).valid()
}

impl TipzView {
    /// The state of a contract in which nothing happened yet.
    pub open spec fn empty() -> TipzView {
        TipzView { profiles: Seq::empty(), tips: Map::empty(), tip_count: 0, tips_volume: 0 }
    }

    /// `owner` has a profile.
    pub open spec fn has_profile(self, owner: Seq<u8>) -> bool {
        exists|i: int| 0 <= i < self.profiles.len() && #[trigger] self.profiles[i].owner == owner
    }

    /// The profile of `owner` (meaningful where `has_profile` holds).
    pub open spec fn profile_of(self, owner: Seq<u8>) -> ProfileView {
        let i = choose|i: int| 0 <= i < self.profiles.len() && #[trigger] self.profiles[i].owner == owner;
        self.profiles[i]
    }

    /// Some profile uses `username`.
    pub open spec fn username_taken(self, username: Seq<u8>) -> bool {
        exists|i: int|
            0 <= i < self.profiles.len() && #[trigger] self.profiles[i].username == username
    }

    /// What the state always satisfies: one profile per owner, one per
    /// username, every username by the rules, every tip filed under its own
    /// id, and no id at or above the counter (but the last one, once the
    /// counter has stopped there).
    pub open spec fn valid(self) -> bool {
        &&& forall|i: int, j: int|
            0 <= i < self.profiles.len() && 0 <= j < self.profiles.len() && i != j
                ==> #[trigger] self.profiles[i].owner != #[trigger] self.profiles[j].owner
        &&& forall|i: int, j: int|
            0 <= i < self.profiles.len() && 0 <= j < self.profiles.len() && i != j
                ==> #[trigger] self.profiles[i].username != #[trigger] self.profiles[j].username
        &&& forall|i: int|
            0 <= i < self.profiles.len() ==> valid_username(#[trigger] self.profiles[i].username)
        &&& self.profiles.len() <= u32::MAX
        &&& forall|k: u32| #[trigger]
            self.tips.contains_key(k) ==> self.tips[k].tip.id == k && (k < self.tip_count || (k
                == u32::MAX && self.tip_count == u32::MAX))
    }

    /// The error, if any, with which a registration is refused, in the order
    /// in which the rules are checked.
    pub open spec fn registration_outcome(
        self,
        caller: Seq<u8>,
        username: Seq<u8>,
        display_name: Seq<u8>,
        bio: Seq<u8>,
    ) -> Result<(), ContractError> {
        if self.has_profile(caller) {
            Err(ContractError::AlreadyRegistered)
        } else if !valid_username(username) {
            Err(ContractError::InvalidUsername)
        } else if self.username_taken(username) {
            Err(ContractError::UsernameTaken)
        } else if display_name.len() == 0 {
            Err(ContractError::InvalidDisplayName)
        } else if bio.len() > MAX_TEXT_LEN {
            Err(ContractError::MessageTooLong)
        } else {
            Ok(())
        }
    }

    /// The state after `p` was registered.
    pub open spec fn with_profile(self, p: ProfileView) -> TipzView {
        TipzView { profiles: self.profiles.push(p), ..self }
    }

    /// The tip that is stored next with these contents.
    pub open spec fn next_tip(
        self,
        tipper: Seq<u8>,
        creator: Seq<u8>,
        amount: i128,
        message: Seq<u8>,
        timestamp: u64,
    ) -> TipView {
        TipView { id: self.tip_count, tipper, creator, amount, message, timestamp }
    }

    /// The state after a tip was stored in ledger `ledger`.
    pub open spec fn with_tip(
        self,
        tipper: Seq<u8>,
        creator: Seq<u8>,
        amount: i128,
        message: Seq<u8>,
        timestamp: u64,
        ledger: u32,
    ) -> TipzView {
        TipzView {
            tips: self.tips.insert(
                self.tip_count,
                StoredTipView {
                    tip: self.next_tip(tipper, creator, amount, message, timestamp),
                    live_until: live_until_after(ledger),
                },
            ),
            tip_count: next_count(self.tip_count),
            ..self
        }
    }

    /// The tip with id `id` as a reader sees it in ledger `ledger`: absent
    /// once its time to live is over.
    pub open spec fn tip_at(self, id: u32, ledger: u32) -> Option<TipView> {
        if self.tips.contains_key(id) && ledger <= self.tips[id].live_until {
            Some(self.tips[id].tip)
        } else {
            None
        }
    }

    /// Up to `count` readable tips to `creator` among the ids below `upto`,
    /// newest first.
    pub open spec fn recent_tips(self, creator: Seq<u8>, count: nat, ledger: u32, upto: nat) -> Seq<
        TipView,
    >
        decreases upto,
    {
        if upto == 0 || count == 0 {
            Seq::empty()
        } else {
            let id = (upto - 1) as u32;
            if self.tip_at(id, ledger) is Some && self.tip_at(id, ledger)->0.creator == creator {
                seq![self.tip_at(id, ledger)->0] + self.recent_tips(
                    creator,
                    (count - 1) as nat,
                    ledger,
                    (upto - 1) as nat,
                )
            } else {
                self.recent_tips(creator, count, ledger, (upto - 1) as nat)
            }
        }
    }

    /// The error, if any, with which a tip is refused, in the order in
    /// which the rules are checked.
    pub open spec fn tip_outcome(
        self,
        tipper: Seq<u8>,
        creator: Seq<u8>,
        amount: i128,
        message: Seq<u8>,
    ) -> Result<(), ContractError> {
        if !self.has_profile(creator) {
            Err(ContractError::NotRegistered)
        } else if tipper == creator {
            Err(ContractError::CannotTipSelf)
        } else if amount <= 0 {
            Err(ContractError::InvalidAmount)
        } else if message.len() > MAX_TEXT_LEN {
            Err(ContractError::MessageTooLong)
        } else {
            Ok(())
        }
    }

    /// The credit of a tip of `amount` to `creator` fits the integer types.
    pub open spec fn credit_fits(self, creator: Seq<u8>, amount: i128) -> bool {
        let p = self.profile_of(creator);
        &&& p.balance + amount <= i128::MAX
        &&& p.total_tips_received + amount <= i128::MAX
        &&& p.total_tips_count < u32::MAX
        &&& self.tips_volume + amount <= i128::MAX
    }

    /// The state after `creator` was credited a tip of `amount`.
    pub open spec fn credit(self, creator: Seq<u8>, amount: i128) -> TipzView {
        TipzView {
            profiles: credit_profiles(self.profiles, creator, amount),
            tips_volume: (self.tips_volume + amount) as i128,
            ..self
        }
    }

    /// The state after a successful tip: the creator credited and the tip
    /// stored.
    pub open spec fn after_tip(
        self,
        tipper: Seq<u8>,
        creator: Seq<u8>,
        amount: i128,
        message: Seq<u8>,
        timestamp: u64,
        ledger: u32,
    ) -> TipzView {
        self.credit(creator, amount).with_tip(tipper, creator, amount, message, timestamp, ledger)
    }
}

} // verus!
