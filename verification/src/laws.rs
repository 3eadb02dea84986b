use vstd::prelude::*;

use crate::state::{
    credit_profiles, credited, distinct_tip_ids, live_until_after, new_profile, snapshot_ok,
    snapshot_view, tips_by_id, StoredTipView, TipzView,
};
use crate::types::{ContractError, ProfileView};
use crate::validation::valid_username;

verus! {

/// Sum of the tips that the profiles have received.
pub open spec fn total_received(ps: Seq<ProfileView>) -> int
    decreases ps.len(),
{
    if ps.len() == 0 {
        0
    } else {
        total_received(ps.drop_last()) + ps.last().total_tips_received
    }
}

/// A tip stays readable under its id from the moment it is stored until
/// `TIP_TTL_LEDGERS` ledgers after the ledger that stored it, and no longer.
pub proof fn law_stored_tip_readable_until_ttl(
    v: TipzView,
    tipper: Seq<u8>,
    creator: Seq<u8>,
    amount: i128,
    message: Seq<u8>,
    timestamp: u64,
    ledger: u32,
    read_ledger: u32,
)
    ensures
        read_ledger <= live_until_after(ledger) ==> v.with_tip(
            tipper,
            creator,
            amount,
            message,
            timestamp,
            ledger,
        ).tip_at(v.tip_count, read_ledger) == Some(
            v.next_tip(tipper, creator, amount, message, timestamp),
        ),
        read_ledger > live_until_after(ledger) ==> v.with_tip(
            tipper,
            creator,
            amount,
            message,
            timestamp,
            ledger,
        ).tip_at(v.tip_count, read_ledger) is None,
{
}

/// Until the counter reaches its limit, each stored tip gets an id that no
/// tip had before, the counter grows by one, and every other tip reads the
/// same as before.
pub proof fn law_tip_ids_unique_and_increasing(
    v: TipzView,
    tipper: Seq<u8>,
    creator: Seq<u8>,
    amount: i128,
    message: Seq<u8>,
    timestamp: u64,
    ledger: u32,
    other: u32,
    read_ledger: u32,
)
    requires
        v.valid(),
        v.tip_count < u32::MAX,
    ensures
        !v.tips.contains_key(v.tip_count),
        v.with_tip(tipper, creator, amount, message, timestamp, ledger).tip_count == v.tip_count
            + 1,
        other != v.tip_count ==> v.with_tip(
            tipper,
            creator,
            amount,
            message,
            timestamp,
            ledger,
        ).tip_at(other, read_ledger) == v.tip_at(other, read_ledger),
{
}

/// Every tip that the recent-tips query returns was sent to the creator
/// asked for and is readable under its own id; there are at most `count`,
/// their ids are below `upto`, and they come newest first.
pub proof fn law_recent_tips_sound(
    v: TipzView,
    creator: Seq<u8>,
    count: nat,
    ledger: u32,
    upto: nat,
)
    requires
        v.valid(),
        upto <= u32::MAX,
    ensures
        v.recent_tips(creator, count, ledger, upto).len() <= count,
        forall|i: int|
            0 <= i < v.recent_tips(creator, count, ledger, upto).len() ==> {
                let t = #[trigger] v.recent_tips(creator, count, ledger, upto)[i];
                &&& t.creator == creator
                &&& t.id < upto
                &&& v.tip_at(t.id, ledger) == Some(t)
            },
        forall|i: int, j: int|
            0 <= i < j < v.recent_tips(creator, count, ledger, upto).len() ==> #[trigger] v.recent_tips(
                creator,
                count,
                ledger,
                upto,
            )[i].id > #[trigger] v.recent_tips(creator, count, ledger, upto)[j].id,
    decreases upto,
{
    if upto == 0 || count == 0 {
    } else {
        let id = (upto - 1) as u32;
        let t = v.tip_at(id, ledger);
        if t is Some && t->0.creator == creator {
            law_recent_tips_sound(v, creator, (count - 1) as nat, ledger, (upto - 1) as nat);
            let rest = v.recent_tips(creator, (count - 1) as nat, ledger, (upto - 1) as nat);
            let all = v.recent_tips(creator, count, ledger, upto);
            assert(all == seq![t->0] + rest);
            assert(v.tips[id].tip.id == id);
            assert forall|i: int| 0 <= i < all.len() implies {
                let u = #[trigger] all[i];
                &&& u.creator == creator
                &&& u.id < upto
                &&& v.tip_at(u.id, ledger) == Some(u)
            } by {
                if i > 0 {
                    assert(all[i] == rest[i - 1]);
                }
            }
            assert forall|i: int, j: int| 0 <= i < j < all.len() implies #[trigger] all[i].id
                > #[trigger] all[j].id by {
                assert(all[j] == rest[j - 1]);
                if i > 0 {
                    assert(all[i] == rest[i - 1]);
                }
            }
        } else {
            law_recent_tips_sound(v, creator, count, ledger, (upto - 1) as nat);
        }
    }
}

/// After a successful registration the caller has a profile, it is the new
/// profile, the username is taken, one more creator is counted, and the
/// state stays well formed.
pub proof fn law_registration_creates_profile(
    v: TipzView,
    caller: Seq<u8>,
    username: Seq<u8>,
    display_name: Seq<u8>,
    bio: Seq<u8>,
    image_url: Seq<u8>,
    x_handle: Seq<u8>,
)
    requires
        v.valid(),
        v.profiles.len() < u32::MAX,
        v.registration_outcome(caller, username, display_name, bio) is Ok,
    ensures
        ({
            let p = new_profile(caller, username, display_name, bio, image_url, x_handle);
            let w = v.with_profile(p);
            &&& w.valid()
            &&& w.has_profile(caller)
            &&& w.profile_of(caller) == p
            &&& w.username_taken(username)
            &&& w.profiles.len() == v.profiles.len() + 1
        }),
{
    let p = new_profile(caller, username, display_name, bio, image_url, x_handle);
    let w = v.with_profile(p);
    let n = v.profiles.len() as int;
    assert(w.profiles[n] == p);
    assert forall|i: int, j: int|
        0 <= i < w.profiles.len() && 0 <= j < w.profiles.len() && i != j
            implies #[trigger] w.profiles[i].owner != #[trigger] w.profiles[j].owner by {
        if i == n {
            assert(v.profiles[j].owner == w.profiles[j].owner);
        } else if j == n {
            assert(v.profiles[i].owner == w.profiles[i].owner);
        }
    }
    assert forall|i: int, j: int|
        0 <= i < w.profiles.len() && 0 <= j < w.profiles.len() && i != j
            implies #[trigger] w.profiles[i].username != #[trigger] w.profiles[j].username by {
        if i == n {
            assert(v.profiles[j].username == w.profiles[j].username);
        } else if j == n {
            assert(v.profiles[i].username == w.profiles[i].username);
        }
    }
    assert forall|i: int| 0 <= i < w.profiles.len() implies valid_username(
        #[trigger] w.profiles[i].username,
    ) by {
        if i < n {
            assert(v.profiles[i] == w.profiles[i]);
        }
    }
    assert(w.profiles[n].owner == caller);
    assert(w.profiles[n].username == username);
    assert(w.has_profile(caller));
    assert(w.username_taken(username));
    let k = choose|k: int| 0 <= k < w.profiles.len() && #[trigger] w.profiles[k].owner == caller;
    assert(w.profiles[k].owner == w.profiles[n].owner);
    assert(k == n);
}

/// Once a caller is registered, registering again is refused with
/// `AlreadyRegistered`; once a username is in use, another caller who asks
/// for it with an acceptable name is refused with `UsernameTaken`.
pub proof fn law_registration_refused_when_taken(
    v: TipzView,
    p: ProfileView,
    username: Seq<u8>,
    display_name: Seq<u8>,
    bio: Seq<u8>,
    other: Seq<u8>,
)
    ensures
        v.with_profile(p).registration_outcome(p.owner, username, display_name, bio) == Err::<
            (),
            ContractError,
        >(ContractError::AlreadyRegistered),
        !v.with_profile(p).has_profile(other) && valid_username(p.username) ==> v.with_profile(
            p,
        ).registration_outcome(other, p.username, display_name, bio) == Err::<(), ContractError>(
            ContractError::UsernameTaken,
        ),
{
    let w = v.with_profile(p);
    let n = v.profiles.len() as int;
    assert(w.profiles[n] == p);
}

/// A successful tip credits exactly the amount to the creator's balance and
/// received total, counts one more tip for the creator, leaves every other
/// profile alone, adds the amount to the volume, and stores the tip so that
/// it reads back in the same ledger.
pub proof fn law_tip_credits_creator(
    v: TipzView,
    tipper: Seq<u8>,
    creator: Seq<u8>,
    amount: i128,
    message: Seq<u8>,
    timestamp: u64,
    ledger: u32,
    someone: Seq<u8>,
)
    requires
        v.valid(),
        v.tip_outcome(tipper, creator, amount, message) is Ok,
        v.credit_fits(creator, amount),
    ensures
        ({
            let w = v.after_tip(tipper, creator, amount, message, timestamp, ledger);
            &&& w.valid()
            &&& w.has_profile(creator)
            &&& w.profile_of(creator).balance == v.profile_of(creator).balance + amount
            &&& w.profile_of(creator).total_tips_received == v.profile_of(
                creator,
            ).total_tips_received + amount
            &&& w.profile_of(creator).total_tips_count == v.profile_of(creator).total_tips_count
                + 1
            &&& w.tips_volume == v.tips_volume + amount
            &&& w.tip_at(v.tip_count, ledger) == Some(
                v.next_tip(tipper, creator, amount, message, timestamp),
            )
            &&& (someone != creator && v.has_profile(someone)) ==> (w.has_profile(someone)
                && w.profile_of(someone) == v.profile_of(someone))
        }),
{
    let w = v.after_tip(tipper, creator, amount, message, timestamp, ledger);
    let c = v.credit(creator, amount);
    let i = choose|i: int| 0 <= i < v.profiles.len() && #[trigger] v.profiles[i].owner == creator;
    assert(c.profiles[i] == credited(v.profiles[i], amount));
    assert(w.profiles == c.profiles);
    // owners and usernames are those of `v`
    assert forall|k: int| 0 <= k < w.profiles.len() implies #[trigger] w.profiles[k].owner
        == v.profiles[k].owner && w.profiles[k].username == v.profiles[k].username by {
        assert(c.profiles[k] == (if v.profiles[k].owner == creator {
            credited(v.profiles[k], amount)
        } else {
            v.profiles[k]
        }));
    }
    assert forall|a: int, b: int|
        0 <= a < w.profiles.len() && 0 <= b < w.profiles.len() && a != b
            implies #[trigger] w.profiles[a].owner != #[trigger] w.profiles[b].owner by {
        assert(v.profiles[a].owner != v.profiles[b].owner);
    }
    assert forall|a: int, b: int|
        0 <= a < w.profiles.len() && 0 <= b < w.profiles.len() && a != b
            implies #[trigger] w.profiles[a].username != #[trigger] w.profiles[b].username by {
        assert(v.profiles[a].username != v.profiles[b].username);
    }
    assert forall|a: int| 0 <= a < w.profiles.len() implies valid_username(
        #[trigger] w.profiles[a].username,
    ) by {
        assert(v.profiles[a].username == w.profiles[a].username);
    }
    assert forall|k: u32| #[trigger] w.tips.contains_key(k) implies w.tips[k].tip.id == k && (k
        < w.tip_count || (k == u32::MAX && w.tip_count == u32::MAX)) by {
        if k != v.tip_count {
            assert(v.tips.contains_key(k));
        }
    }
    let j = choose|j: int| 0 <= j < w.profiles.len() && #[trigger] w.profiles[j].owner == creator;
    assert(w.profiles[i].owner == creator);
    assert(i == j);
    if someone != creator && v.has_profile(someone) {
        let s = choose|s: int| 0 <= s < v.profiles.len() && #[trigger] v.profiles[s].owner == someone;
        assert(w.profiles[s] == v.profiles[s]);
        assert(w.profiles[s].owner == someone);
        let s2 = choose|s2: int|
            0 <= s2 < w.profiles.len() && #[trigger] w.profiles[s2].owner == someone;
        assert(w.profiles[s2].owner == w.profiles[s].owner);
        assert(s2 == s);
    }
}

/// A snapshot of a well-formed state (its profiles, its tips listed with
/// no id twice, its counter and its volume) restores to that same state.
pub proof fn law_snapshot_roundtrip(v: TipzView, tips: Seq<StoredTipView>)
    requires
        v.valid(),
        distinct_tip_ids(tips),
        tips_by_id(tips) == v.tips,
    ensures
        snapshot_ok(v.profiles, tips, v.tip_count, v.tips_volume),
        snapshot_view(v.profiles, tips, v.tip_count, v.tips_volume) == v,
{
}

/// The username rules, byte by byte: a username is acceptable exactly when
/// it has 3 to 32 bytes, its first byte is not an ASCII digit, and every
/// byte is a lower-case ASCII letter, an ASCII digit or `_`. In particular
/// no accepted username holds an upper-case letter anywhere.
pub proof fn law_username_bytes(name: Seq<u8>)
    ensures
        valid_username(name) <==> (3 <= name.len() <= 32 && !(48 <= name[0] <= 57) && forall|
            i: int,
        |
            0 <= i < name.len() ==> ((97 <= #[trigger] name[i] <= 122) || (48 <= name[i] <= 57)
                || name[i] == 95)),
        valid_username(name) ==> forall|i: int|
            0 <= i < name.len() ==> !(65 <= #[trigger] name[i] <= 90),
{
}

/// When a registration is accepted and what it is refused with: the
/// caller's own earlier profile first, then a username against the rules,
/// then a username in use, then an empty display name, then a bio over 280
/// bytes; any other registration is accepted, whatever the length of the
/// display name, image URL or handle.
pub proof fn law_registration_acceptance(
    v: TipzView,
    caller: Seq<u8>,
    username: Seq<u8>,
    display_name: Seq<u8>,
    bio: Seq<u8>,
)
    ensures
        ({
            let registered = exists|i: int|
                0 <= i < v.profiles.len() && #[trigger] v.profiles[i].owner == caller;
            let taken = exists|i: int|
                0 <= i < v.profiles.len() && #[trigger] v.profiles[i].username == username;
            let r = v.registration_outcome(caller, username, display_name, bio);
            &&& (r is Ok <==> (!registered && valid_username(username) && !taken
                && display_name.len() > 0 && bio.len() <= 280))
            &&& registered ==> r == Err::<(), ContractError>(ContractError::AlreadyRegistered)
            &&& (!registered && !valid_username(username)) ==> r == Err::<(), ContractError>(
                ContractError::InvalidUsername,
            )
            &&& (!registered && valid_username(username) && taken) ==> r == Err::<
                (),
                ContractError,
            >(ContractError::UsernameTaken)
            &&& (!registered && valid_username(username) && !taken && display_name.len() == 0)
                ==> r == Err::<(), ContractError>(ContractError::InvalidDisplayName)
            &&& (!registered && valid_username(username) && !taken && display_name.len() > 0
                && bio.len() > 280) ==> r == Err::<(), ContractError>(
                ContractError::MessageTooLong,
            )
        }),
{
}

/// What a registration creates: the new profile holds exactly the given
/// owner, username, display name, bio, image URL and handle, with balance
/// and totals 0 and credit score 40; every profile registered before keeps
/// its place and contents.
pub proof fn law_registered_profile_fields(
    v: TipzView,
    caller: Seq<u8>,
    username: Seq<u8>,
    display_name: Seq<u8>,
    bio: Seq<u8>,
    image_url: Seq<u8>,
    x_handle: Seq<u8>,
)
    ensures
        ({
            let w = v.with_profile(
                new_profile(caller, username, display_name, bio, image_url, x_handle),
            );
            let p = w.profiles[v.profiles.len() as int];
            &&& w.profiles.len() == v.profiles.len() + 1
            &&& forall|i: int| 0 <= i < v.profiles.len() ==> #[trigger] w.profiles[i] == v.profiles[i]
            &&& p.owner == caller
            &&& p.username == username
            &&& p.display_name == display_name
            &&& p.bio == bio
            &&& p.image_url == image_url
            &&& p.x_handle == x_handle
            &&& p.balance == 0
            &&& p.total_tips_received == 0
            &&& p.total_tips_count == 0
            &&& p.credit_score == 40
        }),
{
}

/// When a tip is accepted and what it is refused with: a creator without a
/// profile first, then a tip to oneself, then an amount of zero or below,
/// then a message over 280 bytes; every other tip is accepted, whatever
/// its positive amount.
pub proof fn law_tip_acceptance(
    v: TipzView,
    tipper: Seq<u8>,
    creator: Seq<u8>,
    amount: i128,
    message: Seq<u8>,
)
    ensures
        ({
            let registered = exists|i: int|
                0 <= i < v.profiles.len() && #[trigger] v.profiles[i].owner == creator;
            let r = v.tip_outcome(tipper, creator, amount, message);
            &&& (r is Ok <==> (registered && tipper != creator && amount > 0 && message.len()
                <= 280))
            &&& !registered ==> r == Err::<(), ContractError>(ContractError::NotRegistered)
            &&& (registered && tipper == creator) ==> r == Err::<(), ContractError>(
                ContractError::CannotTipSelf,
            )
            &&& (registered && tipper != creator && amount <= 0) ==> r == Err::<
                (),
                ContractError,
            >(ContractError::InvalidAmount)
            &&& (registered && tipper != creator && amount > 0 && message.len() > 280) ==> r
                == Err::<(), ContractError>(ContractError::MessageTooLong)
        }),
{
}

/// A stored tip holds exactly what was given: under the id equal to the
/// counter before the call it reads back, in every ledger up to 120 960
/// ledgers after the storing one (or the last ledger, if that comes
/// first), with the given tipper, creator, amount, message and timestamp;
/// after that it reads as absent. The counter then grows by one, and stays
/// at `u32::MAX` once there.
pub proof fn law_stored_tip_contents(
    v: TipzView,
    tipper: Seq<u8>,
    creator: Seq<u8>,
    amount: i128,
    message: Seq<u8>,
    timestamp: u64,
    ledger: u32,
    read_ledger: u32,
)
    ensures
        ({
            let w = v.with_tip(tipper, creator, amount, message, timestamp, ledger);
            let last = if ledger + 120_960 > u32::MAX {
                u32::MAX as int
            } else {
                ledger + 120_960
            };
            &&& read_ledger <= last ==> {
                &&& w.tip_at(v.tip_count, read_ledger) is Some
                &&& w.tip_at(v.tip_count, read_ledger)->0.id == v.tip_count
                &&& w.tip_at(v.tip_count, read_ledger)->0.tipper == tipper
                &&& w.tip_at(v.tip_count, read_ledger)->0.creator == creator
                &&& w.tip_at(v.tip_count, read_ledger)->0.amount == amount
                &&& w.tip_at(v.tip_count, read_ledger)->0.message == message
                &&& w.tip_at(v.tip_count, read_ledger)->0.timestamp == timestamp
            }
            &&& read_ledger > last ==> w.tip_at(v.tip_count, read_ledger) is None
            &&& w.tip_count == if v.tip_count == u32::MAX {
                u32::MAX as int
            } else {
                v.tip_count + 1
            }
            &&& w.profiles == v.profiles
            &&& w.tips_volume == v.tips_volume
        }),
{
}

/// A successful tip stores exactly the tip that was sent: under the id
/// equal to the counter before the call, with the given tipper, creator,
/// amount, message and timestamp, readable in the ledger that stored it.
pub proof fn law_sent_tip_contents(
    v: TipzView,
    tipper: Seq<u8>,
    creator: Seq<u8>,
    amount: i128,
    message: Seq<u8>,
    timestamp: u64,
    ledger: u32,
)
    ensures
        ({
            let w = v.after_tip(tipper, creator, amount, message, timestamp, ledger);
            &&& w.tip_at(v.tip_count, ledger) is Some
            &&& w.tip_at(v.tip_count, ledger)->0.id == v.tip_count
            &&& w.tip_at(v.tip_count, ledger)->0.tipper == tipper
            &&& w.tip_at(v.tip_count, ledger)->0.creator == creator
            &&& w.tip_at(v.tip_count, ledger)->0.amount == amount
            &&& w.tip_at(v.tip_count, ledger)->0.message == message
            &&& w.tip_at(v.tip_count, ledger)->0.timestamp == timestamp
        }),
{
}

/// The recent-tips query misses nothing: every tip to the creator that is
/// readable in that ledger, with an id below `upto`, is returned, unless
/// `count` tips were returned already and all of them are newer.
pub proof fn law_recent_tips_complete(
    v: TipzView,
    creator: Seq<u8>,
    count: nat,
    ledger: u32,
    upto: nat,
    k: u32,
)
    requires
        v.valid(),
        upto <= u32::MAX,
        k < upto,
        v.tip_at(k, ledger) is Some,
        v.tip_at(k, ledger)->0.creator == creator,
    ensures
        ({
            let r = v.recent_tips(creator, count, ledger, upto);
            ||| r.contains(v.tip_at(k, ledger)->0)
            ||| (r.len() == count && forall|i: int| 0 <= i < r.len() ==> #[trigger] r[i].id > k)
        }),
    decreases upto,
{
    let r = v.recent_tips(creator, count, ledger, upto);
    let t = v.tip_at(k, ledger)->0;
    if count == 0 {
        assert(r.len() == 0);
    } else {
        let id = (upto - 1) as u32;
        let h = v.tip_at(id, ledger);
        if h is Some && h->0.creator == creator {
            let rest = v.recent_tips(creator, (count - 1) as nat, ledger, (upto - 1) as nat);
            assert(r == seq![h->0] + rest);
            assert(v.tips[id].tip.id == id);
            if k == id {
                assert(r[0] == t);
            } else {
                law_recent_tips_complete(v, creator, (count - 1) as nat, ledger, (upto - 1) as nat, k);
                if rest.contains(t) {
                    let j = choose|j: int| 0 <= j < rest.len() && rest[j] == t;
                    assert(r[j + 1] == t);
                } else {
                    assert forall|i: int| 0 <= i < r.len() implies #[trigger] r[i].id > k by {
                        if i > 0 {
                            assert(r[i] == rest[i - 1]);
                        }
                    }
                }
            }
        } else {
            law_recent_tips_complete(v, creator, count, ledger, (upto - 1) as nat, k);
        }
    }
}

/// A fresh contract has no profiles, no tips, a counter at 0 and no volume.
pub proof fn law_empty_state()
    ensures
        TipzView::empty().profiles.len() == 0,
        TipzView::empty().tips.dom() == Set::<u32>::empty(),
        TipzView::empty().tip_count == 0,
        TipzView::empty().tips_volume == 0,
        TipzView::empty().valid(),
{
    assert(TipzView::empty().tips.dom() =~= Set::<u32>::empty());
}

/// Where no id repeats, a listing of stored tips files each entry under
/// its own id, and files nothing else.
pub proof fn law_tips_by_id_files_each_entry(ts: Seq<StoredTipView>, k: u32)
    requires
        distinct_tip_ids(ts),
    ensures
        forall|i: int|
            0 <= i < ts.len() ==> tips_by_id(ts).contains_key(#[trigger] ts[i].tip.id)
                && tips_by_id(ts)[ts[i].tip.id] == ts[i],
        tips_by_id(ts).contains_key(k) ==> exists|i: int|
            0 <= i < ts.len() && #[trigger] ts[i].tip.id == k,
{
    assert forall|i: int| 0 <= i < ts.len() implies tips_by_id(ts).contains_key(
        #[trigger] ts[i].tip.id,
    ) && tips_by_id(ts)[ts[i].tip.id] == ts[i] by {
        let id = ts[i].tip.id;
        assert(ts[i].tip.id == id);
        let j = choose|j: int| 0 <= j < ts.len() && #[trigger] ts[j].tip.id == id;
        if j != i {
            assert(ts[j].tip.id == ts[i].tip.id);
        }
    }
}

/// The received totals after a credit: one profile at most is the
/// creator's, and its total grows by the amount.
proof fn lemma_total_received_after_credit(ps: Seq<ProfileView>, creator: Seq<u8>, amount: i128)
    requires
        forall|i: int, j: int|
            0 <= i < ps.len() && 0 <= j < ps.len() && i != j ==> #[trigger] ps[i].owner
                != #[trigger] ps[j].owner,
        forall|i: int|
            0 <= i < ps.len() && #[trigger] ps[i].owner == creator ==> ps[i].total_tips_received
                + amount <= i128::MAX && ps[i].total_tips_received + amount >= i128::MIN,
    ensures
        total_received(credit_profiles(ps, creator, amount)) == total_received(ps) + if exists|
            i: int,
        | 0 <= i < ps.len() && #[trigger] ps[i].owner == creator {
            amount as int
        } else {
            0
        },
    decreases ps.len(),
{
    if ps.len() > 0 {
        let rest = ps.drop_last();
        let n = ps.len() - 1;
        assert(credit_profiles(ps, creator, amount).drop_last() =~= credit_profiles(
            rest,
            creator,
            amount,
        ));
        lemma_total_received_after_credit(rest, creator, amount);
        if ps[n].owner == creator {
            assert forall|i: int| 0 <= i < rest.len() implies #[trigger] rest[i].owner != creator by {
                assert(ps[i].owner != ps[n].owner);
            }
        } else {
            if exists|i: int| 0 <= i < ps.len() && #[trigger] ps[i].owner == creator {
                let i = choose|i: int| 0 <= i < ps.len() && #[trigger] ps[i].owner == creator;
                assert(rest[i].owner == creator);
            }
            if exists|i: int| 0 <= i < rest.len() && #[trigger] rest[i].owner == creator {
                let i = choose|i: int| 0 <= i < rest.len() && #[trigger] rest[i].owner == creator;
                assert(ps[i].owner == creator);
            }
        }
    }
}

/// The volume of all tips equals the sum of what the creators have
/// received: registration adds a profile that has received nothing, a tip
/// adds its amount to both sides, and storing a tip record alone touches
/// neither.
pub proof fn law_volume_matches_received(
    v: TipzView,
    caller: Seq<u8>,
    username: Seq<u8>,
    display_name: Seq<u8>,
    bio: Seq<u8>,
    image_url: Seq<u8>,
    x_handle: Seq<u8>,
    tipper: Seq<u8>,
    creator: Seq<u8>,
    amount: i128,
    message: Seq<u8>,
    timestamp: u64,
    ledger: u32,
)
    requires
        v.valid(),
        v.tips_volume == total_received(v.profiles),
    ensures
        ({
            let w = v.with_profile(
                new_profile(caller, username, display_name, bio, image_url, x_handle),
            );
            w.tips_volume == total_received(w.profiles)
        }),
        ({
            let w = v.with_tip(tipper, creator, amount, message, timestamp, ledger);
            w.tips_volume == total_received(w.profiles)
        }),
        v.tip_outcome(tipper, creator, amount, message) is Ok && v.credit_fits(creator, amount)
            ==> ({
            let w = v.after_tip(tipper, creator, amount, message, timestamp, ledger);
            w.tips_volume == total_received(w.profiles)
        }),
{
    let p = new_profile(caller, username, display_name, bio, image_url, x_handle);
    assert(v.with_profile(p).profiles.drop_last() =~= v.profiles);
    if v.tip_outcome(tipper, creator, amount, message) is Ok && v.credit_fits(creator, amount) {
        let i = choose|i: int| 0 <= i < v.profiles.len() && #[trigger] v.profiles[i].owner == creator;
        assert forall|k: int|
            0 <= k < v.profiles.len() && #[trigger] v.profiles[k].owner == creator implies v.profiles[k].total_tips_received
            + amount <= i128::MAX && v.profiles[k].total_tips_received + amount >= i128::MIN by {
            assert(v.profiles[k].owner == v.profiles[i].owner);
            assert(k == i);
        }
        lemma_total_received_after_credit(v.profiles, creator, amount);
    }
}

} // verus!
