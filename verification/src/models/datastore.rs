//! The peer registry: one row per known peer, keyed by its canonical
//! announced address, with blacklist bookkeeping, attempt counters, and
//! sampling. Every operation is a single in-memory step; persistence and
//! transport live outside the registry.

use vstd::prelude::*;

use crate::models::p2p::peer_address::PeerAddress;
use crate::models::p2p::peer_info::PeerInfo;
use crate::sampling::random_index;

pub mod peer_state;

verus! {

/// Minutes added per blacklist event.
pub const BLACKLIST_BASE_MINUTES: u64 = 10;

/// Cap on one blacklist duration: 24 hours.
pub const BLACKLIST_MAX_MINUTES: u64 = 1440;

/// One registry row.
#[derive(Debug)]
pub struct PeerRecord {
    pub announced_address: PeerAddress,
    pub ip_address: Option<String>,
    pub application: Option<String>,
    pub version: Option<String>,
    pub platform: Option<String>,
    pub share_address: Option<bool>,
    pub network_name: Option<String>,
    /// `None` means never seen successfully.
    pub last_seen: Option<u64>,
    pub attempts_since_last_seen: u32,
    /// How many blacklist events this peer has seen.
    pub blacklist_count: u32,
    /// `None` means not blacklisted.
    pub blacklist_until: Option<u64>,
}

impl PeerRecord {
    /// The peer is excluded from discovery, refresh and download selection.
    pub open spec fn blacklist_active(&self, now: u64) -> bool {
        match self.blacklist_until {
            Option::Some(t) => t >= now,
            Option::None => false,
        }
    }
}

/// The row a newly discovered peer gets: only its announced address.
pub open spec fn fresh_peer_record(addr: PeerAddress) -> PeerRecord {
    PeerRecord {
        announced_address: addr,
        ip_address: Option::None,
        application: Option::None,
        version: Option::None,
        platform: Option::None,
        share_address: Option::None,
        network_name: Option::None,
        last_seen: Option::None,
        attempts_since_last_seen: 0,
        blacklist_count: 0,
        blacklist_until: Option::None,
    }
}

/// The row after a successful info merge: metadata overwritten,
/// `last_seen` set to `now`, the attempt counter reset, and the blacklist
/// state untouched.
pub open spec fn merged_peer_record(
    rec: PeerRecord,
    ip: String,
    info: PeerInfo,
    now: u64,
) -> PeerRecord {
    PeerRecord {
        announced_address: rec.announced_address,
        ip_address: Option::Some(ip),
        application: Option::Some(info.application),
        version: Option::Some(info.version),
        platform: info.platform,
        share_address: Option::Some(info.share_address),
        network_name: Option::Some(info.network_name),
        last_seen: Option::Some(now),
        attempts_since_last_seen: 0,
        blacklist_count: rec.blacklist_count,
        blacklist_until: rec.blacklist_until,
    }
}

/// Minutes the next blacklist event applies, given how many events came
/// before: `min(10 * (prior_count + 1), 1440)`.
pub open spec fn spec_blacklist_duration_minutes(prior_count: u32) -> int {
    if 10 * (prior_count + 1) <= 1440 {
        10 * (prior_count + 1)
    } else {
        1440
    }
}

pub fn blacklist_duration_minutes(prior_count: u32) -> (r: u64)
    ensures
        r == spec_blacklist_duration_minutes(prior_count),
        10 <= r <= 1440,
{
    let m: u64 = BLACKLIST_BASE_MINUTES * (prior_count as u64 + 1);
    if m <= BLACKLIST_MAX_MINUTES {
        m
    } else {
        BLACKLIST_MAX_MINUTES
    }
}

/// The `k`-th blacklist event of a peer (counting from 1) applies
/// `min(10 * k, 1440)` minutes.
pub proof fn lemma_blacklist_duration_of_kth_event(k: u32)
    requires
        k >= 1,
    ensures
        spec_blacklist_duration_minutes((k - 1) as u32) == if 10 * k <= 1440 {
            10 * k as int
        } else {
            1440
        },
{
}

/// The blacklist duration saturates at 1440 minutes from the 144th event
/// on.
pub proof fn lemma_blacklist_duration_saturates(prior_count: u32)
    requires
        prior_count >= 143,
    ensures
        spec_blacklist_duration_minutes(prior_count) == 1440,
{
}

/// A registry operation failed.
#[derive(Debug)]
pub enum DatastoreError {
    UnexpectedError(String),
}

/// A record a worker should refresh: not blacklisted, and last seen more
/// than `duration_seconds` ago (or never).
pub open spec fn spec_needs_refresh(rec: PeerRecord, now: u64, duration_seconds: u64) -> bool {
    !rec.blacklist_active(now) && match rec.last_seen {
        Option::Some(t) => t + duration_seconds < now,
        Option::None => true,
    }
}

/// Number of records whose blacklist is inactive at `now`.
pub open spec fn count_eligible(peers: Seq<PeerRecord>, now: u64) -> nat
    decreases peers.len(),
{
    if peers.len() == 0 {
        0
    } else {
        count_eligible(peers.drop_last(), now) + (if !peers.last().blacklist_active(now) {
            1nat
        } else {
            0nat
        })
    }
}

/// The registry of known peers. The announced address is unique across
/// rows; rows are never deleted.
#[derive(Debug)]
pub struct Datastore {
    pub peers: Vec<PeerRecord>,
}

impl Datastore {
    /// Uniqueness of the announced address across the registry, and
    /// well-formedness of every row's address.
    pub open spec fn wf(&self) -> bool {
        &&& forall|i: int, j: int|
            0 <= i < j < self.peers@.len() ==> (#[trigger] self.peers@[i]).announced_address.key()
                != (#[trigger] self.peers@[j]).announced_address.key()
        &&& forall|i: int|
            0 <= i < self.peers@.len() ==> (#[trigger] self.peers@[i]).announced_address.wf()
    }

    /// Some row is keyed by `addr`.
    pub open spec fn contains_addr(&self, addr: PeerAddress) -> bool {
        exists|i: int|
            0 <= i < self.peers@.len() && (#[trigger] self.peers@[i]).announced_address.key()
                == addr.key()
    }

    /// The index of the row keyed by `addr`.
    pub open spec fn index_of_addr(&self, addr: PeerAddress) -> int {
        choose|i: int|
            0 <= i < self.peers@.len() && (#[trigger] self.peers@[i]).announced_address.key()
                == addr.key()
    }

    /// `a` is the announced address of some row whose blacklist is
    /// inactive at `now`.
    pub open spec fn is_eligible_address(&self, a: PeerAddress, now: u64) -> bool {
        exists|i: int|
            #![trigger self.peers@[i]]
            0 <= i < self.peers@.len() && a == self.peers@[i].announced_address
                && !self.peers@[i].blacklist_active(now)
    }

    /// `a` is the announced address of some row that needs a refresh.
    pub open spec fn is_refresh_candidate(&self, a: PeerAddress, now: u64, duration_seconds: u64) -> bool {
        exists|i: int|
            #![trigger self.peers@[i]]
            0 <= i < self.peers@.len() && a == self.peers@[i].announced_address
                && spec_needs_refresh(self.peers@[i], now, duration_seconds)
    }

    pub fn new() -> (r: Datastore)
        ensures
            r.peers@.len() == 0,
            r.wf(),
    {
        Datastore { peers: Vec::new() }
    }

    fn find_index(&self, addr: &PeerAddress) -> (r: Option<usize>)
        ensures
            match r {
                Some(i) => i < self.peers@.len() && self.peers@[i as int].announced_address.key()
                    == addr.key(),
                None => !self.contains_addr(*addr),
            },
    {
        let n: usize = self.peers.len();
        let mut i: usize = 0;
        while i < n
            invariant
                n == self.peers@.len(),
                i <= n,
                forall|j: int|
                    0 <= j < i ==> (#[trigger] self.peers@[j]).announced_address.key()
                        != addr.key(),
            decreases n - i,
        {
            if self.peers[i].announced_address == *addr {
                return Some(i);
            }
            i = i + 1;
        }
        None
    }

    /// Idempotent insert: adds a fresh row for a peer not yet present, and
    /// returns whether a new row was created.
    pub fn create_new_peer(&mut self, peer: &PeerAddress) -> (created: bool)
        requires
            old(self).wf(),
            peer.wf(),
        ensures
            final(self).wf(),
            created == !old(self).contains_addr(*peer),
            created ==> final(self).peers@ == old(self).peers@.push(fresh_peer_record(*peer)),
            !created ==> final(self).peers@ == old(self).peers@,
    {
        match self.find_index(peer) {
            Some(_) => false,
            None => {
                let rec = PeerRecord {
                    announced_address: peer.clone(),
                    ip_address: None,
                    application: None,
                    version: None,
                    platform: None,
                    share_address: None,
                    network_name: None,
                    last_seen: None,
                    attempts_since_last_seen: 0,
                    blacklist_count: 0,
                    blacklist_until: None,
                };
                proof {
                    assert(rec == fresh_peer_record(*peer));
                }
                self.peers.push(rec);
                proof {
                    assert forall|i: int, j: int|
                        0 <= i < j < self.peers@.len() implies (
                    #[trigger] self.peers@[i]).announced_address.key() != (
                    #[trigger] self.peers@[j]).announced_address.key() by {
                        if j == self.peers@.len() - 1 {
                            assert(self.peers@[j].announced_address.key() == peer.key());
                            assert(!old(self).contains_addr(*peer));
                            assert(old(self).peers@[i].announced_address.key() != peer.key());
                        }
                    }
                }
                true
            },
        }
    }
    /// Merges freshly fetched info into the row keyed by `peer_address`:
    /// metadata is overwritten, `last_seen` becomes `now`, and the attempt
    /// counter resets to zero. Returns whether the row existed.
    pub fn update_peer_info(
        &mut self,
        peer_address: &PeerAddress,
        new_ip_address: String,
        peer_info: PeerInfo,
        now: u64,
    ) -> (updated: bool)
        requires
            old(self).wf(),
        ensures
            final(self).wf(),
            updated == old(self).contains_addr(*peer_address),
            updated ==> final(self).peers@ == old(self).peers@.update(
                old(self).index_of_addr(*peer_address),
                merged_peer_record(
                    old(self).peers@[old(self).index_of_addr(*peer_address)],
                    new_ip_address,
                    peer_info,
                    now,
                ),
            ),
            !updated ==> final(self).peers@ == old(self).peers@,
    {
        match self.find_index(peer_address) {
            None => false,
            Some(i) => {
                let ghost oldrec = self.peers@[i as int];
                self.peers[i].ip_address = Some(new_ip_address);
                self.peers[i].application = Some(peer_info.application);
                self.peers[i].version = Some(peer_info.version);
                self.peers[i].platform = peer_info.platform;
                self.peers[i].share_address = Some(peer_info.share_address);
                self.peers[i].network_name = Some(peer_info.network_name);
                self.peers[i].last_seen = Some(now);
                self.peers[i].attempts_since_last_seen = 0;
                proof {
                    lemma_unique_index(*old(self), *peer_address, i as int);
                    assert(self.peers@ =~= old(self).peers@.update(
                        i as int,
                        merged_peer_record(oldrec, new_ip_address, peer_info, now),
                    ));
                    lemma_wf_after_update(
                        *old(self),
                        *self,
                        i as int,
                        merged_peer_record(oldrec, new_ip_address, peer_info, now),
                    );
                }
                true
            },
        }
    }

    /// Counts one more failed contact attempt since the peer was last
    /// seen. Returns whether the row existed.
    pub fn increment_attempts_since_last_seen(&mut self, peer: &PeerAddress) -> (updated: bool)
        requires
            old(self).wf(),
        ensures
            final(self).wf(),
            updated == old(self).contains_addr(*peer),
            updated ==> final(self).peers@ == old(self).peers@.update(
                old(self).index_of_addr(*peer),
                bumped_attempts_record(old(self).peers@[old(self).index_of_addr(*peer)]),
            ),
            !updated ==> final(self).peers@ == old(self).peers@,
    {
        match self.find_index(peer) {
            None => false,
            Some(i) => {
                let ghost oldrec = self.peers@[i as int];
                let prior = self.peers[i].attempts_since_last_seen;
                if prior < u32::MAX {
                    self.peers[i].attempts_since_last_seen = prior + 1;
                }
                proof {
                    lemma_unique_index(*old(self), *peer, i as int);
                    assert(self.peers@ =~= old(self).peers@.update(
                        i as int,
                        bumped_attempts_record(oldrec),
                    ));
                    lemma_wf_after_update(*old(self), *self, i as int, bumped_attempts_record(oldrec));
                }
                true
            },
        }
    }

    /// Blacklists the peer: the running count grows by one and the
    /// exclusion lasts `min(10 * (count + 1), 1440)` minutes from `now`.
    /// Returns whether the row existed; on success the new `until` stamp
    /// lies strictly in the future.
    pub fn blacklist_peer(&mut self, peer: &PeerAddress, now: u64) -> (updated: bool)
        requires
            old(self).wf(),
            now <= u64::MAX - 86_400,
        ensures
            final(self).wf(),
            updated == old(self).contains_addr(*peer),
            updated ==> final(self).peers@ == old(self).peers@.update(
                old(self).index_of_addr(*peer),
                blacklisted_record(old(self).peers@[old(self).index_of_addr(*peer)], now),
            ),
            updated ==> ({
                let rec = old(self).peers@[old(self).index_of_addr(*peer)];
                let newrec = final(self).peers@[old(self).index_of_addr(*peer)];
                &&& newrec.blacklist_until is Some
                &&& newrec.blacklist_until->0 > now
                &&& rec.blacklist_count < u32::MAX ==> newrec.blacklist_count == rec.blacklist_count
                    + 1
            }),
            !updated ==> final(self).peers@ == old(self).peers@,
    {
        match self.find_index(peer) {
            None => false,
            Some(i) => {
                let ghost oldrec = self.peers@[i as int];
                let prior = self.peers[i].blacklist_count;
                let minutes = blacklist_duration_minutes(prior);
                self.peers[i].blacklist_until = Some(now + 60 * minutes);
                if prior < u32::MAX {
                    self.peers[i].blacklist_count = prior + 1;
                }
                proof {
                    lemma_unique_index(*old(self), *peer, i as int);
                    assert(self.peers@ =~= old(self).peers@.update(
                        i as int,
                        blacklisted_record(oldrec, now),
                    ));
                    lemma_wf_after_update(*old(self), *self, i as int, blacklisted_record(oldrec, now));
                }
                true
            },
        }
    }

    /// Clears the blacklist state of the peer: the count returns to zero
    /// and the exclusion ends. Returns whether the row existed.
    pub fn deblacklist_peer(&mut self, peer: &PeerAddress) -> (updated: bool)
        requires
            old(self).wf(),
        ensures
            final(self).wf(),
            updated == old(self).contains_addr(*peer),
            updated ==> final(self).peers@ == old(self).peers@.update(
                old(self).index_of_addr(*peer),
                deblacklisted_record(old(self).peers@[old(self).index_of_addr(*peer)]),
            ),
            !updated ==> final(self).peers@ == old(self).peers@,
    {
        match self.find_index(peer) {
            None => false,
            Some(i) => {
                let ghost oldrec = self.peers@[i as int];
                self.peers[i].blacklist_count = 0;
                self.peers[i].blacklist_until = None;
                proof {
                    lemma_unique_index(*old(self), *peer, i as int);
                    assert(self.peers@ =~= old(self).peers@.update(
                        i as int,
                        deblacklisted_record(oldrec),
                    ));
                    lemma_wf_after_update(*old(self), *self, i as int, deblacklisted_record(oldrec));
                }
                true
            },
        }
    }
}

/// Every record update that keeps the announced address keeps the
/// registry well-formed.
pub proof fn lemma_wf_after_update(pre: Datastore, post: Datastore, i: int, rec: PeerRecord)
    requires
        pre.wf(),
        0 <= i < pre.peers@.len(),
        rec.announced_address == pre.peers@[i].announced_address,
        post.peers@ == pre.peers@.update(i, rec),
    ensures
        post.wf(),
{
    assert forall|x: int, y: int|
        0 <= x < y < post.peers@.len() implies (#[trigger] post.peers@[x]).announced_address.key()
        != (#[trigger] post.peers@[y]).announced_address.key() by {
        assert(post.peers@[x].announced_address == pre.peers@[x].announced_address);
        assert(post.peers@[y].announced_address == pre.peers@[y].announced_address);
    }
    assert forall|x: int|
        0 <= x < post.peers@.len() implies (#[trigger] post.peers@[x]).announced_address.wf() by {
        assert(post.peers@[x].announced_address == pre.peers@[x].announced_address);
    }
}

/// In a well-formed registry the index found for an address is the index
/// the specification names.
pub proof fn lemma_unique_index(d: Datastore, addr: PeerAddress, i: int)
    requires
        d.wf(),
        0 <= i < d.peers@.len(),
        d.peers@[i].announced_address.key() == addr.key(),
    ensures
        d.contains_addr(addr),
        d.index_of_addr(addr) == i,
{
    assert(d.contains_addr(addr));
    let ci = d.index_of_addr(addr);
    assert(0 <= ci < d.peers@.len() && d.peers@[ci].announced_address.key() == addr.key());
    if ci != i {
        if ci < i {
            assert(d.peers@[ci].announced_address.key() != d.peers@[i].announced_address.key());
        } else {
            assert(d.peers@[i].announced_address.key() != d.peers@[ci].announced_address.key());
        }
    }
}

/// The attempt counter after one more failed contact.
pub open spec fn bumped_attempts_record(rec: PeerRecord) -> PeerRecord {
    PeerRecord {
        attempts_since_last_seen: if rec.attempts_since_last_seen < u32::MAX {
            (rec.attempts_since_last_seen + 1) as u32
        } else {
            u32::MAX
        },
        ..rec
    }
}

/// The blacklist state after one more blacklist event at `now`.
pub open spec fn blacklisted_record(rec: PeerRecord, now: u64) -> PeerRecord {
    PeerRecord {
        blacklist_count: if rec.blacklist_count < u32::MAX {
            (rec.blacklist_count + 1) as u32
        } else {
            u32::MAX
        },
        blacklist_until: Option::Some(
            (now + 60 * spec_blacklist_duration_minutes(rec.blacklist_count)) as u64,
        ),
        ..rec
    }
}

/// The blacklist state after an explicit deblacklist.
pub open spec fn deblacklisted_record(rec: PeerRecord) -> PeerRecord {
    PeerRecord { blacklist_count: 0, blacklist_until: Option::None, ..rec }
}
impl Datastore {
    /// Indices of all rows whose blacklist is inactive, in registry order.
    fn eligible_indices(&self, now: u64) -> (r: Vec<usize>)
        ensures
            r@.len() == count_eligible(self.peers@, now),
            forall|k: int|
                0 <= k < r@.len() ==> (#[trigger] r@[k]) < self.peers@.len()
                    && !self.peers@[r@[k] as int].blacklist_active(now),
            forall|k1: int, k2: int| 0 <= k1 < k2 < r@.len() ==> r@[k1] < r@[k2],
    {
        let n: usize = self.peers.len();
        let mut out: Vec<usize> = Vec::new();
        let mut i: usize = 0;
        while i < n
            invariant
                n == self.peers@.len(),
                i <= n,
                out@.len() == count_eligible(self.peers@.subrange(0, i as int), now),
                forall|k: int|
                    0 <= k < out@.len() ==> (#[trigger] out@[k]) < i
                        && !self.peers@[out@[k] as int].blacklist_active(now),
                forall|k1: int, k2: int| 0 <= k1 < k2 < out@.len() ==> out@[k1] < out@[k2],
            decreases n - i,
        {
            proof {
                assert(self.peers@.subrange(0, i + 1).drop_last() =~= self.peers@.subrange(
                    0,
                    i as int,
                ));
                assert(self.peers@.subrange(0, i + 1).last() == self.peers@[i as int]);
            }
            let active = match self.peers[i].blacklist_until {
                Some(t) => t >= now,
                None => false,
            };
            if !active {
                out.push(i);
            }
            i = i + 1;
        }
        proof {
            assert(self.peers@.subrange(0, n as int) =~= self.peers@);
        }
        out
    }

    /// Returns the address of one uniformly chosen peer whose blacklist is
    /// inactive; fails exactly when no such peer exists.
    pub fn get_random_peer(&self, now: u64) -> (r: Result<PeerAddress, DatastoreError>)
        requires
            self.wf(),
        ensures
            match r {
                Ok(a) => self.is_eligible_address(a, now) && a.wf(),
                Err(_) => count_eligible(self.peers@, now) == 0,
            },
            (r is Ok) == (count_eligible(self.peers@, now) > 0),
    {
        let elig = self.eligible_indices(now);
        if elig.len() == 0 {
            return Err(DatastoreError::UnexpectedError(
                "no random address could be found".to_owned(),
            ));
        }
        let j = random_index(elig.len());
        let idx = elig[j];
        Ok(self.peers[idx].announced_address.clone())
    }

    /// Returns up to `number` distinct addresses of peers whose blacklist
    /// is inactive, uniformly sampled; fails exactly when none exists or
    /// none was asked for.
    pub fn get_n_random_peers(&self, number: u32, now: u64) -> (r: Result<
        Vec<PeerAddress>,
        DatastoreError,
    >)
        requires
            self.wf(),
        ensures
            match r {
                Ok(v) => {
                    &&& v@.len() == (if number as int <= count_eligible(self.peers@, now) {
                        number as int
                    } else {
                        count_eligible(self.peers@, now) as int
                    })
                    &&& v@.len() >= 1
                    &&& forall|k: int|
                        0 <= k < v@.len() ==> self.is_eligible_address(#[trigger] v@[k], now)
                            && v@[k].wf()
                    &&& forall|k1: int, k2: int|
                        0 <= k1 < k2 < v@.len() ==> (#[trigger] v@[k1]).key() != (
                        #[trigger] v@[k2]).key()
                },
                Err(_) => count_eligible(self.peers@, now) == 0 || number == 0,
            },
    {
        let mut remaining = self.eligible_indices(now);
        if remaining.len() == 0 || number == 0 {
            return Err(DatastoreError::UnexpectedError(
                "no random addresses could be found".to_owned(),
            ));
        }
        let total: usize = remaining.len();
        let take: usize = if (number as usize) < total {
            number as usize
        } else {
            total
        };
        let mut out: Vec<PeerAddress> = Vec::new();
        let mut t: usize = 0;
        while t < take
            invariant
                self.wf(),
                1 <= take <= total,
                t <= take,
                out@.len() == t,
                remaining@.len() == total - t,
                forall|m: int|
                    0 <= m < remaining@.len() ==> (#[trigger] remaining@[m]) < self.peers@.len()
                        && !self.peers@[remaining@[m] as int].blacklist_active(now),
                forall|m1: int, m2: int|
                    0 <= m1 < m2 < remaining@.len() ==> remaining@[m1] < remaining@[m2],
                forall|k: int|
                    0 <= k < out@.len() ==> self.is_eligible_address(#[trigger] out@[k], now),
                forall|k1: int, k2: int|
                    0 <= k1 < k2 < out@.len() ==> (#[trigger] out@[k1]).key() != (
                    #[trigger] out@[k2]).key(),
                forall|k: int, m: int|
                    0 <= k < out@.len() && 0 <= m < remaining@.len() ==> (#[trigger] out@[k]).key()
                        != (#[trigger] self.peers@[remaining@[m] as int]).announced_address.key(),
            decreases take - t,
        {
            let j = random_index(remaining.len());
            let idx = remaining[j];
            let ghost old_remaining = remaining@;
            let ghost old_out = out@;
            out.push(self.peers[idx].announced_address.clone());
            remaining.remove(j);
            proof {
                assert(remaining@ =~= old_remaining.remove(j as int));
                assert forall|m: int| 0 <= m < remaining@.len() implies remaining@[m]
                    == (if m < j { old_remaining[m] } else { old_remaining[m + 1] }) by {}
                assert forall|k: int, m: int|
                    0 <= k < out@.len() && 0 <= m < remaining@.len() implies (
                #[trigger] out@[k]).key() != (
                #[trigger] self.peers@[remaining@[m] as int]).announced_address.key() by {
                    let oi = if m < j { m } else { m + 1 };
                    assert(remaining@[m] == old_remaining[oi]);
                    if k < old_out.len() {
                        assert(out@[k] == old_out[k]);
                    } else {
                        assert(out@[k] == self.peers@[idx as int].announced_address);
                        assert(old_remaining[oi] != idx);
                        if (old_remaining[oi] as int) < (idx as int) {
                            assert(self.peers@[old_remaining[oi] as int].announced_address.key()
                                != self.peers@[idx as int].announced_address.key());
                        } else {
                            assert(self.peers@[idx as int].announced_address.key()
                                != self.peers@[old_remaining[oi] as int].announced_address.key());
                        }
                    }
                }
            }
            t = t + 1;
        }
        proof {
            assert forall|k: int| 0 <= k < out@.len() implies self.is_eligible_address(
                #[trigger] out@[k],
                now,
            ) && out@[k].wf() by {
                let ghost picked = out@[k];
                assert(self.is_eligible_address(out@[k], now));
                let i = choose|i: int|
                    #![trigger self.peers@[i]]
                    0 <= i < self.peers@.len() && out@[k] == self.peers@[i].announced_address
                        && !self.peers@[i].blacklist_active(now);
                assert(self.peers@[i].announced_address.wf());
            }
        }
        Ok(out)
    }

    /// Addresses of every row a refresh worker should visit: blacklist
    /// inactive, and last seen more than `duration_seconds` before `now`,
    /// or never seen.
    pub fn get_peers_last_seen_before(&self, now: u64, duration_seconds: u64) -> (r: Vec<
        PeerAddress,
    >)
        requires
            self.wf(),
        ensures
            forall|k: int|
                0 <= k < r@.len() ==> self.is_refresh_candidate(
                    #[trigger] r@[k],
                    now,
                    duration_seconds,
                ),
            forall|i: int|
                0 <= i < self.peers@.len() && spec_needs_refresh(
                    #[trigger] self.peers@[i],
                    now,
                    duration_seconds,
                ) ==> exists|k: int| 0 <= k < r@.len() && r@[k] == self.peers@[i].announced_address,
            forall|k1: int, k2: int|
                0 <= k1 < k2 < r@.len() ==> (#[trigger] r@[k1]).key() != (#[trigger] r@[k2]).key(),
    {
        let n: usize = self.peers.len();
        let mut out: Vec<PeerAddress> = Vec::new();
        let mut i: usize = 0;
        while i < n
            invariant
                self.wf(),
                n == self.peers@.len(),
                i <= n,
                forall|k: int|
                    #![trigger out@[k]]
                    0 <= k < out@.len() ==> exists|x: int|
                        #![trigger self.peers@[x]]
                        0 <= x < i && out@[k] == self.peers@[x].announced_address
                            && spec_needs_refresh(self.peers@[x], now, duration_seconds),
                forall|x: int|
                    0 <= x < i && spec_needs_refresh(
                        #[trigger] self.peers@[x],
                        now,
                        duration_seconds,
                    ) ==> exists|k: int|
                        0 <= k < out@.len() && out@[k] == self.peers@[x].announced_address,
                forall|k1: int, k2: int|
                    0 <= k1 < k2 < out@.len() ==> (#[trigger] out@[k1]).key() != (
                    #[trigger] out@[k2]).key(),
            decreases n - i,
        {
            let active = match self.peers[i].blacklist_until {
                Some(t) => t >= now,
                None => false,
            };
            let stale = !active && match self.peers[i].last_seen {
                Some(t) => now >= duration_seconds && t < now - duration_seconds,
                None => true,
            };
            if stale {
                let ghost old_out = out@;
                proof {
                    // The new address comes from row `i`; every address
                    // already collected comes from an earlier row, and rows
                    // carry pairwise distinct keys.
                    assert forall|k: int| 0 <= k < old_out.len() implies (
                    #[trigger] old_out[k]).key()
                        != self.peers@[i as int].announced_address.key() by {
                        let x = choose|x: int|
                            #![trigger self.peers@[x]]
                            0 <= x < i && old_out[k] == self.peers@[x].announced_address
                                && spec_needs_refresh(self.peers@[x], now, duration_seconds);
                        assert(self.peers@[x].announced_address.key()
                            != self.peers@[i as int].announced_address.key());
                    }
                }
                out.push(self.peers[i].announced_address.clone());
                proof {
                    assert(out@[old_out.len() as int] == self.peers@[i as int].announced_address);
                    assert(forall|k: int| 0 <= k < old_out.len() ==> out@[k] == old_out[k]);
                }
            }
            i = i + 1;
        }
        proof {
            assert forall|k: int| 0 <= k < out@.len() implies self.is_refresh_candidate(
                #[trigger] out@[k],
                now,
                duration_seconds,
            ) by {
                let ghost picked = out@[k];
            }
        }
        out
    }
}
/// Updating a row without changing its address keeps the row reachable
/// under the same index.
pub proof fn lemma_contains_after_update(
    pre: Datastore,
    post: Datastore,
    addr: PeerAddress,
    i: int,
    rec: PeerRecord,
)
    requires
        pre.wf(),
        0 <= i < pre.peers@.len(),
        pre.peers@[i].announced_address.key() == addr.key(),
        rec.announced_address == pre.peers@[i].announced_address,
        post.peers@ == pre.peers@.update(i, rec),
    ensures
        pre.contains_addr(addr),
        pre.index_of_addr(addr) == i,
        post.wf(),
        post.contains_addr(addr),
        post.index_of_addr(addr) == i,
{
    lemma_unique_index(pre, addr, i);
    lemma_wf_after_update(pre, post, i, rec);
    assert(post.peers@[i].announced_address.key() == addr.key());
    lemma_unique_index(post, addr, i);
}

} // verus!
