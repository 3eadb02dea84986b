use std::collections::HashMap;
use vstd::prelude::*;

use crate::bytes::{bytes_eq, copy_bytes};
use crate::state::{
    credited, distinct_tip_ids, new_profile, snapshot_ok, snapshot_view, tips_by_id,
    StoredTipView, TipzView, INITIAL_CREDIT_SCORE, TIP_TTL_LEDGERS,
};
use crate::types::{ContractError, Profile, ProfileView, Tip, TipView};
use crate::validation::{is_valid_username, valid_username, MAX_TEXT_LEN};

verus! {

broadcast use vstd::std_specs::hash::group_hash_axioms;

/// A tip as kept in storage, with the last ledger in which it can be read.
#[derive(Clone, Debug, PartialEq, Eq)]
pub struct StoredTip {
    pub tip: Tip,
    pub live_until: u32,
}

impl StoredTip {
    /// A field-by-field copy.
    pub fn copy(&self) -> (r: StoredTip)
        ensures
            r@ == self@,
    {
        StoredTip { tip: self.tip.copy(), live_until: self.live_until }
    }
}

/// The values of a sequence of stored tips.
pub open spec fn stored_views(ts: Seq<StoredTip>) -> Seq<StoredTipView> {
    ts.map_values(|e: StoredTip| e@)
}

/// The values of a sequence of profiles.
pub open spec fn profile_views(ps: Seq<Profile>) -> Seq<ProfileView> {
    ps.map_values(|p: Profile| p@)
}

impl View for StoredTip {
    type V = StoredTipView;

    open spec fn view(&self) -> StoredTipView {
        StoredTipView { tip: self.tip@, live_until: self.live_until }
    }
}

/// The state of the contract: the profiles, the tip records and the
/// counters.
pub struct Tipz {
    profiles: Vec<Profile>,
    tips: HashMap<u32, StoredTip>,
    tip_count: u32,
    tips_volume: i128,
}

impl View for Tipz {
    type V = TipzView;

    closed spec fn view(&self) -> TipzView {
        TipzView {
            profiles: self.profiles@.map_values(|p: Profile| p@),
            tips: self.tips@.map_values(|e: StoredTip| e@),
            tip_count: self.tip_count,
            tips_volume: self.tips_volume,
        }
    }
}

/// The values of a sequence of tips.
pub open spec fn tip_views(tips: Seq<Tip>) -> Seq<TipView> {
    tips.map_values(|t: Tip| t@)
}

impl Tipz {
    /// The state of a freshly deployed contract.
    pub fn new() -> (r: Tipz)
        ensures
            r@ == TipzView::empty(),
            r@.valid(),
    {
        let r = Tipz { profiles: Vec::new(), tips: HashMap::new(), tip_count: 0, tips_volume: 0 };
        assert(r@.profiles =~= Seq::<ProfileView>::empty());
        assert(r@.tips =~= Map::<u32, StoredTipView>::empty());
        r
    }

    /// Number of registered creators.
    pub fn total_creators(&self) -> (r: u32)
        requires
            self@.valid(),
        ensures
            r == self@.profiles.len(),
    {
        self.profiles.len() as u32
    }

    /// The id the next tip gets: the number of tips ever stored.
    pub fn tip_count(&self) -> (r: u32)
        ensures
            r == self@.tip_count,
    {
        self.tip_count
    }

    /// Sum of all tips ever sent.
    pub fn tips_volume(&self) -> (r: i128)
        ensures
            r == self@.tips_volume,
    {
        self.tips_volume
    }

    /// The position of `owner`'s profile.
    fn find_profile(&self, owner: &Vec<u8>) -> (r: Option<usize>)
        ensures
            match r {
                Some(i) => i < self@.profiles.len() && self@.profiles[i as int].owner == owner@,
                None => !self@.has_profile(owner@),
            },
    {
        let n = self.profiles.len();
        let mut i: usize = 0;
        while i < n
            invariant
                n == self@.profiles.len(),
                i <= n,
                forall|j: int| 0 <= j < i ==> #[trigger] self@.profiles[j].owner != owner@,
            decreases n - i,
        {
            if bytes_eq(&self.profiles[i].owner, owner) {
                return Some(i);
            }
            i = i + 1;
        }
        None
    }

    /// Whether `owner` has a profile.
    pub fn has_profile(&self, owner: &Vec<u8>) -> (r: bool)
        ensures
            r == self@.has_profile(owner@),
    {
        self.find_profile(owner).is_some()
    }

    /// Whether some profile uses `username`.
    pub fn is_username_taken(&self, username: &Vec<u8>) -> (r: bool)
        ensures
            r == self@.username_taken(username@),
    {
        let n = self.profiles.len();
        let mut i: usize = 0;
        while i < n
            invariant
                n == self@.profiles.len(),
                i <= n,
                forall|j: int| 0 <= j < i ==> #[trigger] self@.profiles[j].username != username@,
            decreases n - i,
        {
            if bytes_eq(&self.profiles[i].username, username) {
                assert(self@.profiles[i as int].username == username@);
                return true;
            }
            i = i + 1;
        }
        false
    }

    /// The profile of `owner`, if there is one.
    pub fn get_profile(&self, owner: &Vec<u8>) -> (r: Option<Profile>)
        requires
            self@.valid(),
        ensures
            match r {
                Some(p) => self@.has_profile(owner@) && p@ == self@.profile_of(owner@),
                None => !self@.has_profile(owner@),
            },
    {
        match self.find_profile(owner) {
            Some(i) => {
                proof {
                    lemma_profile_of_index(self@, owner@, i as int);
                }
                Some(self.profiles[i].copy())
            },
            None => None,
        }
    }

    /// Registers a profile for `caller`.
    ///
    /// Refused, in this order, when the caller already has a profile, the
    /// username breaks the rules, the username is taken, the display name is
    /// empty, or the bio is too long; a refusal changes nothing.
    pub fn register_profile(
        &mut self,
        caller: Vec<u8>,
        username: Vec<u8>,
        display_name: Vec<u8>,
        bio: Vec<u8>,
        image_url: Vec<u8>,
        x_handle: Vec<u8>,
    ) -> (r: Result<Profile, ContractError>)
        requires
            old(self)@.valid(),
            old(self)@.registration_outcome(caller@, username@, display_name@, bio@) is Ok
                ==> old(self)@.profiles.len() < u32::MAX,
        ensures
            final(self)@.valid(),
            match r {
                Ok(p) => {
                    &&& old(self)@.registration_outcome(caller@, username@, display_name@, bio@)
                        is Ok
                    &&& p@ == new_profile(
                        caller@,
                        username@,
                        display_name@,
                        bio@,
                        image_url@,
                        x_handle@,
                    )
                    &&& final(self)@ == old(self)@.with_profile(p@)
                },
                Err(e) => {
                    &&& old(self)@.registration_outcome(caller@, username@, display_name@, bio@)
                        == Err::<(), ContractError>(e)
                    &&& final(self)@ == old(self)@
                },
            },
    {
        if self.has_profile(&caller) {
            return Err(ContractError::AlreadyRegistered);
        }
        if !is_valid_username(&username) {
            return Err(ContractError::InvalidUsername);
        }
        if self.is_username_taken(&username) {
            return Err(ContractError::UsernameTaken);
        }
        if display_name.len() == 0 {
            return Err(ContractError::InvalidDisplayName);
        }
        if bio.len() > MAX_TEXT_LEN {
            return Err(ContractError::MessageTooLong);
        }
        let profile = Profile {
            owner: caller,
            username,
            display_name,
            bio,
            image_url,
            x_handle,
            balance: 0,
            total_tips_received: 0,
            total_tips_count: 0,
            credit_score: INITIAL_CREDIT_SCORE,
        };
        let ghost old_view = self@;
        self.profiles.push(profile.copy());
        proof {
            assert(self@.profiles =~= old_view.profiles.push(profile@));
            assert(self@ == old_view.with_profile(profile@));
            let v = self@;
            let n = old_view.profiles.len() as int;
            assert forall|i: int, j: int|
                0 <= i < v.profiles.len() && 0 <= j < v.profiles.len() && i != j
                    implies #[trigger] v.profiles[i].owner != #[trigger] v.profiles[j].owner by {
                if i == n {
                    assert(old_view.profiles[j].owner == v.profiles[j].owner);
                } else if j == n {
                    assert(old_view.profiles[i].owner == v.profiles[i].owner);
                }
            }
            assert forall|i: int, j: int|
                0 <= i < v.profiles.len() && 0 <= j < v.profiles.len() && i != j
                    implies #[trigger] v.profiles[i].username != #[trigger] v.profiles[j].username by {
                if i == n {
                    assert(old_view.profiles[j].username == v.profiles[j].username);
                } else if j == n {
                    assert(old_view.profiles[i].username == v.profiles[i].username);
                }
            }
            assert forall|i: int| 0 <= i < v.profiles.len() implies valid_username(
                #[trigger] v.profiles[i].username,
            ) by {
                if i < n {
                    assert(old_view.profiles[i] == v.profiles[i]);
                }
            }
        }
        Ok(profile)
    }

    /// Stores a new tip and returns its id: the counter before the call.
    ///
    /// The counter goes up by one and stops at `u32::MAX`; the record stays
    /// readable for `TIP_TTL_LEDGERS` ledgers after `ledger`.
    pub fn store_tip(
        &mut self,
        tipper: &Vec<u8>,
        creator: &Vec<u8>,
        amount: i128,
        message: Vec<u8>,
        timestamp: u64,
        ledger: u32,
    ) -> (id: u32)
        requires
            old(self)@.valid(),
        ensures
            id == old(self)@.tip_count,
            final(self)@ == old(self)@.with_tip(
                tipper@,
                creator@,
                amount,
                message@,
                timestamp,
                ledger,
            ),
            final(self)@.valid(),
    {
        let ghost old_view = self@;
        let id = self.tip_count;
        self.tip_count = id.saturating_add(1);
        let tip = Tip {
            id,
            tipper: copy_bytes(tipper),
            creator: copy_bytes(creator),
            amount,
            message,
            timestamp,
        };
        let live_until = ledger.saturating_add(TIP_TTL_LEDGERS);
        let entry = StoredTip { tip, live_until };
        let ghost entry_view = entry@;
        self.tips.insert(id, entry);
        proof {
            assert(self@.tips =~= old_view.tips.insert(id, entry_view));
            assert(self@.profiles =~= old_view.profiles);
            assert(self@ == old_view.with_tip(
                tipper@,
                creator@,
                amount,
                message@,
                timestamp,
                ledger,
            ));
        }
        id
    }

    /// The tip with id `id` as seen in ledger `ledger`; `None` where there
    /// is none or its time to live is over.
    pub fn get_tip(&self, id: u32, ledger: u32) -> (r: Option<Tip>)
        ensures
            match r {
                Some(t) => self@.tip_at(id, ledger) == Some(t@),
                None => self@.tip_at(id, ledger) is None,
            },
    {
        match self.tips.get(&id) {
            Some(e) => {
                if ledger <= e.live_until {
                    Some(e.tip.copy())
                } else {
                    None
                }
            },
            None => None,
        }
    }

    /// Up to `count` tips to `creator` that are readable in ledger `ledger`,
    /// newest first; scanning stops once `count` are found.
    pub fn get_recent_tips(&self, creator: &Vec<u8>, count: u32, ledger: u32) -> (r: Vec<Tip>)
        ensures
            tip_views(r@) == self@.recent_tips(
                creator@,
                count as nat,
                ledger,
                self@.tip_count as nat,
            ),
    {
        let mut result: Vec<Tip> = Vec::new();
        let mut found: u32 = 0;
        let mut i: u32 = self.tip_count;
        while i > 0 && found < count
            invariant
                i <= self@.tip_count,
                found <= count,
                tip_views(result@) + self@.recent_tips(
                    creator@,
                    (count - found) as nat,
                    ledger,
                    i as nat,
                ) == self@.recent_tips(creator@, count as nat, ledger, self@.tip_count as nat),
            decreases i,
        {
            let ghost before = tip_views(result@);
            let ghost left = (count - found) as nat;
            i = i - 1;
            match self.tips.get(&i) {
                Some(e) => {
                    if ledger <= e.live_until && bytes_eq(&e.tip.creator, creator) {
                        let t = e.tip.copy();
                        proof {
                            assert(self@.tips[i] == e@);
                            assert(self@.tip_at(i, ledger) == Some(t@));
                        }
                        result.push(t);
                        found = found + 1;
                        proof {
                            assert(tip_views(result@) =~= before.push(t@));
                            assert(before.push(t@) + self@.recent_tips(
                                creator@,
                                (count - found) as nat,
                                ledger,
                                i as nat,
                            ) =~= before + (seq![t@] + self@.recent_tips(
                                creator@,
                                (left - 1) as nat,
                                ledger,
                                i as nat,
                            )));
                        }
                    } else {
                        proof {
                            assert(self@.tips[i] == e@);
                        }
                    }
                },
                None => {},
            }
        }
        proof {
            assert(self@.recent_tips(creator@, (count - found) as nat, ledger, i as nat) =~= Seq::<
                TipView,
            >::empty());
            assert(tip_views(result@) =~= tip_views(result@) + Seq::<TipView>::empty());
        }
        result
    }

    /// Sends a tip of `amount` from `tipper` to the registered `creator`.
    ///
    /// Refused, in this order, when the creator has no profile, the tipper
    /// is the creator, the amount is not positive, or the message is too
    /// long; a refusal changes nothing. On success the creator's balance and
    /// totals grow by the tip, the tip is stored, and the volume grows by the
    /// amount. Moving the funds is left to the caller.
    pub fn send_tip(
        &mut self,
        tipper: &Vec<u8>,
        creator: &Vec<u8>,
        amount: i128,
        message: &Vec<u8>,
        timestamp: u64,
        ledger: u32,
    ) -> (r: Result<(), ContractError>)
        requires
            old(self)@.valid(),
            old(self)@.tip_outcome(tipper@, creator@, amount, message@) is Ok ==> old(
                self,
            )@.credit_fits(creator@, amount),
        ensures
            final(self)@.valid(),
            r == old(self)@.tip_outcome(tipper@, creator@, amount, message@),
            r is Ok ==> final(self)@ == old(self)@.after_tip(
                tipper@,
                creator@,
                amount,
                message@,
                timestamp,
                ledger,
            ),
            r is Err ==> final(self)@ == old(self)@,
    {
        let idx = match self.find_profile(creator) {
            Some(i) => i,
            None => {
                return Err(ContractError::NotRegistered);
            },
        };
        if bytes_eq(tipper, creator) {
            return Err(ContractError::CannotTipSelf);
        }
        if amount <= 0 {
            return Err(ContractError::InvalidAmount);
        }
        if message.len() > MAX_TEXT_LEN {
            return Err(ContractError::MessageTooLong);
        }
        let ghost old_view = self@;
        proof {
            lemma_profile_of_index(old_view, creator@, idx as int);
        }
        let mut p = self.profiles[idx].copy();
        p.balance = p.balance + amount;
        p.total_tips_received = p.total_tips_received + amount;
        p.total_tips_count = p.total_tips_count + 1;
        let ghost pv = p@;
        self.profiles.set(idx, p);
        self.tips_volume = self.tips_volume + amount;
        proof {
            let credited_view = old_view.credit(creator@, amount);
            assert(pv == credited(old_view.profiles[idx as int], amount));
            assert forall|j: int| 0 <= j < self@.profiles.len() implies #[trigger] self@.profiles[j]
                == credited_view.profiles[j] by {
                if j != idx {
                    assert(old_view.profiles[j].owner != old_view.profiles[idx as int].owner);
                }
            }
            assert(self@.profiles =~= credited_view.profiles);
            assert(self@ == credited_view);
            let v = self@;
            assert forall|i: int, j: int|
                0 <= i < v.profiles.len() && 0 <= j < v.profiles.len() && i != j
                    implies #[trigger] v.profiles[i].owner != #[trigger] v.profiles[j].owner by {
                assert(old_view.profiles[i].owner != old_view.profiles[j].owner);
            }
            assert forall|i: int, j: int|
                0 <= i < v.profiles.len() && 0 <= j < v.profiles.len() && i != j
                    implies #[trigger] v.profiles[i].username != #[trigger] v.profiles[j].username by {
                assert(old_view.profiles[i].username != old_view.profiles[j].username);
            }
            assert forall|i: int| 0 <= i < v.profiles.len() implies valid_username(
                #[trigger] v.profiles[i].username,
            ) by {
                assert(old_view.profiles[i].username == v.profiles[i].username);
            }
        }
        let _id = self.store_tip(tipper, creator, amount, copy_bytes(message), timestamp, ledger);
        Ok(())
    }

    /// A copy of the profiles, in order of registration.
    pub fn export_profiles(&self) -> (r: Vec<Profile>)
        ensures
            profile_views(r@) == self@.profiles,
    {
        let mut r: Vec<Profile> = Vec::new();
        let n = self.profiles.len();
        let mut i: usize = 0;
        while i < n
            invariant
                n == self@.profiles.len(),
                i <= n,
                profile_views(r@) =~= self@.profiles.subrange(0, i as int),
            decreases n - i,
        {
            let c = self.profiles[i].copy();
            let ghost before = r@;
            r.push(c);
            proof {
                assert(profile_views(r@) =~= profile_views(before).push(c@));
                assert(self@.profiles[i as int] == self.profiles@[i as int]@);
            }
            i = i + 1;
        }
        r
    }

    /// A copy of the stored tips, by increasing id.
    pub fn export_tips(&self) -> (r: Vec<StoredTip>)
        requires
            self@.valid(),
        ensures
            distinct_tip_ids(stored_views(r@)),
            tips_by_id(stored_views(r@)) == self@.tips,
            forall|i: int, j: int|
                0 <= i < j < r@.len() ==> #[trigger] r@[i].tip.id < #[trigger] r@[j].tip.id,
    {
        let mut r: Vec<StoredTip> = Vec::new();
        let mut i: u32 = 0;
        while i < self.tip_count
            invariant
                self@.valid(),
                i <= self@.tip_count,
                forall|a: int, b: int|
                    0 <= a < b < r@.len() ==> #[trigger] r@[a].tip.id < #[trigger] r@[b].tip.id,
                forall|a: int| 0 <= a < r@.len() ==> #[trigger] r@[a].tip.id < i,
                forall|k: u32|
                    #[trigger] tips_by_id(stored_views(r@)).contains_key(k) <==> (
                    self@.tips.contains_key(k) && k < i),
                forall|k: u32|
                    #[trigger] tips_by_id(stored_views(r@)).contains_key(k) ==> tips_by_id(
                        stored_views(r@),
                    )[k] == self@.tips[k],
            decreases self@.tip_count - i,
        {
            let ghost before = r@;
            match self.tips.get(&i) {
                Some(e) => {
                    let c = e.copy();
                    proof {
                        assert(self@.tips.contains_key(i));
                        assert(self@.tips[i] == e@);
                        assert(c@.tip.id == i);
                        lemma_push_larger_id(before, c);
                    }
                    r.push(c);
                },
                None => {},
            }
            i = i + 1;
        }
        if self.tip_count == u32::MAX {
            match self.tips.get(&u32::MAX) {
                Some(e) => {
                    let ghost before = r@;
                    let c = e.copy();
                    proof {
                        assert(self@.tips.contains_key(u32::MAX));
                        assert(self@.tips[u32::MAX] == e@);
                        assert(c@.tip.id == u32::MAX);
                        lemma_push_larger_id(before, c);
                    }
                    r.push(c);
                },
                None => {},
            }
        }
        proof {
            assert forall|a: int, b: int|
                0 <= a < stored_views(r@).len() && 0 <= b < stored_views(r@).len() && a != b
                    implies #[trigger] stored_views(r@)[a].tip.id != #[trigger] stored_views(
                    r@,
                )[b].tip.id by {
                if a < b {
                    assert(r@[a].tip.id < r@[b].tip.id);
                } else {
                    assert(r@[b].tip.id < r@[a].tip.id);
                }
            }
            assert(tips_by_id(stored_views(r@)) =~= self@.tips);
        }
        r
    }

    /// Rebuilds a state from a snapshot of its parts; `None` where the parts
    /// do not describe a well-formed state.
    pub fn restore(
        profiles: Vec<Profile>,
        tips: Vec<StoredTip>,
        tip_count: u32,
        tips_volume: i128,
    ) -> (r: Option<Tipz>)
        ensures
            r is Some <==> snapshot_ok(
                profile_views(profiles@),
                stored_views(tips@),
                tip_count,
                tips_volume,
            ),
            r matches Some(t) ==> t@ == snapshot_view(
                profile_views(profiles@),
                stored_views(tips@),
                tip_count,
                tips_volume,
            ),
    {
        let ghost pv = profile_views(profiles@);
        let ghost tv = stored_views(tips@);
        let ghost target = snapshot_view(pv, tv, tip_count, tips_volume);
        let mut t = Tipz { profiles: Vec::new(), tips: HashMap::new(), tip_count, tips_volume };
        let n = profiles.len();
        if n > 0xffff_ffff {
            return None;
        }
        let mut i: usize = 0;
        proof {
            assert(t@.profiles =~= pv.subrange(0, 0));
            assert(t@.tips =~= Map::<u32, StoredTipView>::empty());
        }
        while i < n
            invariant
                n == profiles@.len(),
                n <= u32::MAX,
                i <= n,
                pv == profile_views(profiles@),
                tv == stored_views(tips@),
                target == snapshot_view(pv, tv, tip_count, tips_volume),
                t@.profiles == pv.subrange(0, i as int),
                t@.tips == Map::<u32, StoredTipView>::empty(),
                t@.tip_count == tip_count,
                t@.tips_volume == tips_volume,
                t@.valid(),
            decreases n - i,
        {
            let p = &profiles[i];
            let ghost old_view = t@;
            if t.has_profile(&p.owner) || !is_valid_username(&p.username) || t.is_username_taken(
                &p.username,
            ) {
                proof {
                    assert(pv[i as int] == p@);
                    assert(target.profiles == pv);
                    if old_view.has_profile(p.owner@) {
                        let j = choose|j: int|
                            0 <= j < old_view.profiles.len()
                                && #[trigger] old_view.profiles[j].owner == p.owner@;
                        assert(pv[j] == old_view.profiles[j]);
                        assert(j < i);
                        assert(target.profiles[j].owner == target.profiles[i as int].owner);
                    } else if !valid_username(p.username@) {
                        assert(!valid_username(target.profiles[i as int].username));
                    } else {
                        assert(old_view.username_taken(p.username@));
                        let j = choose|j: int|
                            0 <= j < old_view.profiles.len()
                                && #[trigger] old_view.profiles[j].username == p.username@;
                        assert(pv[j] == old_view.profiles[j]);
                        assert(j < i);
                        assert(target.profiles[j].username == target.profiles[i as int].username);
                    }
                    assert(!target.valid());
                }
                return None;
            }
            t.profiles.push(p.copy());
            proof {
                assert(pv[i as int] == p@);
                assert(t@.profiles =~= pv.subrange(0, i + 1));
                assert(t@.tips == old_view.tips);
                let v = t@;
                let m = old_view.profiles.len() as int;
                assert forall|a: int, b: int|
                    0 <= a < v.profiles.len() && 0 <= b < v.profiles.len() && a != b
                        implies #[trigger] v.profiles[a].owner != #[trigger] v.profiles[b].owner by {
                    if a == m {
                        assert(old_view.profiles[b].owner == v.profiles[b].owner);
                    } else if b == m {
                        assert(old_view.profiles[a].owner == v.profiles[a].owner);
                    }
                }
                assert forall|a: int, b: int|
                    0 <= a < v.profiles.len() && 0 <= b < v.profiles.len() && a != b
                        implies #[trigger] v.profiles[a].username
                        != #[trigger] v.profiles[b].username by {
                    if a == m {
                        assert(old_view.profiles[b].username == v.profiles[b].username);
                    } else if b == m {
                        assert(old_view.profiles[a].username == v.profiles[a].username);
                    }
                }
                assert forall|a: int| 0 <= a < v.profiles.len() implies valid_username(
                    #[trigger] v.profiles[a].username,
                ) by {
                    if a < m {
                        assert(old_view.profiles[a] == v.profiles[a]);
                    }
                }
            }
            i = i + 1;
        }
        proof {
            assert(t@.profiles =~= pv);
            assert(tips_by_id(tv.subrange(0, 0)) =~= t@.tips);
        }
        let m = tips.len();
        let mut j: usize = 0;
        while j < m
            invariant
                m == tips@.len(),
                j <= m,
                tv == stored_views(tips@),
                pv == profile_views(profiles@),
                target == snapshot_view(pv, tv, tip_count, tips_volume),
                t@.profiles == pv,
                t@.tips == tips_by_id(tv.subrange(0, j as int)),
                distinct_tip_ids(tv.subrange(0, j as int)),
                t@.tip_count == tip_count,
                t@.tips_volume == tips_volume,
                t@.valid(),
            decreases m - j,
        {
            let e = &tips[j];
            let id = e.tip.id;
            let ghost old_view = t@;
            let ghost prefix = tv.subrange(0, j as int);
            proof {
                assert(tv[j as int] == e@);
                assert(tips_by_id(tv).contains_key(id)) by {
                    assert(tv[j as int].tip.id == id);
                }
            }
            if !(id < tip_count || (id == u32::MAX && tip_count == u32::MAX)) {
                proof {
                    if distinct_tip_ids(tv) {
                        lemma_tips_by_id_at(tv, j as int);
                        assert(target.tips.contains_key(id));
                        assert(target.tips[id].tip.id == id);
                    }
                    assert(!snapshot_ok(pv, tv, tip_count, tips_volume));
                }
                return None;
            }
            if t.tips.contains_key(&id) {
                proof {
                    assert(t@.tips.contains_key(id));
                    assert(tips_by_id(prefix).contains_key(id));
                    let k = choose|k: int| 0 <= k < prefix.len() && #[trigger] prefix[k].tip.id == id;
                    assert(tv[k] == prefix[k]);
                    assert(tv[k].tip.id == tv[j as int].tip.id);
                    assert(!distinct_tip_ids(tv));
                }
                return None;
            }
            proof {
                assert(!old_view.tips.contains_key(id));
            }
            t.tips.insert(id, e.copy());
            proof {
                assert(tv.subrange(0, j + 1) =~= prefix.push(e@));
                assert forall|a: int, b: int|
                    0 <= a < prefix.push(e@).len() && 0 <= b < prefix.push(e@).len() && a != b
                        implies #[trigger] prefix.push(e@)[a].tip.id != #[trigger] prefix.push(
                        e@,
                    )[b].tip.id by {
                    if a == prefix.len() && b < prefix.len() {
                        if prefix[b].tip.id == id {
                            assert(tips_by_id(prefix).contains_key(id));
                        }
                    } else if b == prefix.len() && a < prefix.len() {
                        if prefix[a].tip.id == id {
                            assert(tips_by_id(prefix).contains_key(id));
                        }
                    }
                }
                lemma_tips_by_id_push(prefix, e@);
                assert(t@.tips =~= old_view.tips.insert(id, e@));
                assert(t@.profiles == old_view.profiles);
                assert forall|k: u32| #[trigger] t@.tips.contains_key(k) implies t@.tips[k].tip.id
                    == k && (k < tip_count || (k == u32::MAX && tip_count == u32::MAX)) by {
                    if k != id {
                        assert(old_view.tips.contains_key(k));
                    }
                }
            }
            j = j + 1;
        }
        proof {
            assert(tv.subrange(0, m as int) =~= tv);
            assert(t@ == target);
        }
        Some(t)
    }
}

/// Where owners are unique, the profile of an owner is the one at the
/// position where that owner stands.
proof fn lemma_profile_of_index(v: TipzView, owner: Seq<u8>, i: int)
    requires
        v.valid(),
        0 <= i < v.profiles.len(),
        v.profiles[i].owner == owner,
    ensures
        v.has_profile(owner),
        v.profile_of(owner) == v.profiles[i],
{
    let j = choose|j: int| 0 <= j < v.profiles.len() && #[trigger] v.profiles[j].owner == owner;
    assert(v.profiles[i].owner == owner);
}

/// Appending a tip whose id is above every id so far keeps the ids
/// increasing and files exactly that entry in addition.
proof fn lemma_push_larger_id(before: Seq<StoredTip>, c: StoredTip)
    requires
        forall|a: int, b: int|
            0 <= a < b < before.len() ==> #[trigger] before[a].tip.id < #[trigger] before[b].tip.id,
        forall|a: int| 0 <= a < before.len() ==> #[trigger] before[a].tip.id < c.tip.id,
    ensures
        stored_views(before.push(c)) == stored_views(before).push(c@),
        distinct_tip_ids(stored_views(before.push(c))),
        tips_by_id(stored_views(before.push(c))) == tips_by_id(stored_views(before)).insert(
            c.tip.id,
            c@,
        ),
        forall|a: int, b: int|
            0 <= a < b < before.push(c).len() ==> #[trigger] before.push(c)[a].tip.id
                < #[trigger] before.push(c)[b].tip.id,
{
    let s = before.push(c);
    let sv = stored_views(s);
    assert(sv =~= stored_views(before).push(c@));
    assert forall|a: int, b: int| 0 <= a < sv.len() && 0 <= b < sv.len() && a != b implies #[trigger] sv[a].tip.id
        != #[trigger] sv[b].tip.id by {
        assert(sv[a].tip.id == s[a].tip.id);
        assert(sv[b].tip.id == s[b].tip.id);
        if a < before.len() && b < before.len() {
            if a < b {
                assert(before[a].tip.id < before[b].tip.id);
            } else {
                assert(before[b].tip.id < before[a].tip.id);
            }
        } else if a < before.len() {
            assert(before[a].tip.id < c.tip.id);
        } else {
            assert(before[b].tip.id < c.tip.id);
        }
    }
    lemma_tips_by_id_push(stored_views(before), c@);
    assert forall|a: int, b: int| 0 <= a < b < s.len() implies #[trigger] s[a].tip.id
        < #[trigger] s[b].tip.id by {
        if b < before.len() {
            assert(before[a].tip.id < before[b].tip.id);
        } else {
            assert(before[a].tip.id < c.tip.id);
        }
    }
}

/// Filing one more tip under its id, where no id repeats, adds exactly
/// that entry.
proof fn lemma_tips_by_id_push(ts: Seq<StoredTipView>, e: StoredTipView)
    requires
        distinct_tip_ids(ts.push(e)),
    ensures
        tips_by_id(ts.push(e)) =~= tips_by_id(ts).insert(e.tip.id, e),
{
    let s = ts.push(e);
    let n = ts.len() as int;
    assert(s[n] == e);
    assert forall|k: u32| #[trigger] tips_by_id(s).contains_key(k) <==> tips_by_id(ts).insert(
        e.tip.id,
        e,
    ).contains_key(k) by {
        if tips_by_id(s).contains_key(k) && k != e.tip.id {
            let i = choose|i: int| 0 <= i < s.len() && #[trigger] s[i].tip.id == k;
            assert(i != n);
            assert(ts[i] == s[i]);
        }
        if tips_by_id(ts).contains_key(k) {
            let i = choose|i: int| 0 <= i < ts.len() && #[trigger] ts[i].tip.id == k;
            assert(s[i] == ts[i]);
        }
    }
    assert forall|k: u32| #[trigger] tips_by_id(s).contains_key(k) implies tips_by_id(s)[k]
        == tips_by_id(ts).insert(e.tip.id, e)[k] by {
        let i = choose|i: int| 0 <= i < s.len() && #[trigger] s[i].tip.id == k;
        if k == e.tip.id {
            if i != n {
                assert(s[i].tip.id == s[n].tip.id);
            }
        } else {
            assert(i != n);
            assert(ts[i] == s[i]);
            let i2 = choose|i2: int| 0 <= i2 < ts.len() && #[trigger] ts[i2].tip.id == k;
            assert(s[i2] == ts[i2]);
            if i2 != i {
                assert(s[i2].tip.id == s[i].tip.id);
            }
        }
    }
}

/// Where ids do not repeat, the tip at position `i` is the one filed under
/// its id.
proof fn lemma_tips_by_id_at(ts: Seq<StoredTipView>, i: int)
    requires
        distinct_tip_ids(ts),
        0 <= i < ts.len(),
    ensures
        tips_by_id(ts).contains_key(ts[i].tip.id),
        tips_by_id(ts)[ts[i].tip.id] == ts[i],
{
    let k = ts[i].tip.id;
    assert(ts[i].tip.id == k);
    let j = choose|j: int| 0 <= j < ts.len() && #[trigger] ts[j].tip.id == k;
    if j != i {
        assert(ts[j].tip.id == ts[i].tip.id);
    }
}

} // verus!
