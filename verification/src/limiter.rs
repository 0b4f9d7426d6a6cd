//! The request counter that keeps one source from flooding the gateway.
//!
//! Every request of a source is counted. A request is turned away while the
//! source's count stands above the requests per second that are allowed,
//! times the seconds of a window; a count is never taken back. Once per
//! window the owner of the limiter sets all counts back to zero.

use vstd::prelude::*;
use dashmap::DashMap;

verus! {

/// The concurrent map of `dashmap`. The limiter owns one and reaches it
/// through exclusive references only.
#[verifier::external_type_specification]
#[verifier::external_body]
#[verifier::reject_recursive_types(K)]
#[verifier::reject_recursive_types(V)]
#[verifier::reject_recursive_types(S)]
pub struct ExDashMap<K, V, S>(DashMap<K, V, S>);

/// The counts that a map holds, by source.
pub uninterp spec fn counts_in(peers: &DashMap<String, usize>) -> Map<Seq<char>, usize>;

/// The counts before anything was counted.
pub open spec fn no_counts_yet() -> Map<Seq<char>, usize> {
    Map::empty()
}

/// `DashMap::new`: a map that holds nothing.
#[verifier::external_body]
fn no_counts() -> (peers: DashMap<String, usize>)
    ensures
        counts_in(&peers) == no_counts_yet(),
{
    DashMap::new()
}

/// `DashMap::get`: the value that the map holds for a key, if it holds one.
#[verifier::external_body]
fn count_in(peers: &DashMap<String, usize>, peer: &str) -> (count: Option<usize>)
    ensures
        count == if counts_in(peers).contains_key(peer@) {
            Some(counts_in(peers)[peer@])
        } else {
            None
        },
{
    peers.get(peer).map(|held| *held)
}

/// `DashMap::insert`: afterwards the map holds the value for the key, and for
/// every other key what it held before.
#[verifier::external_body]
fn set_count(peers: &mut DashMap<String, usize>, peer: &str, count: usize)
    ensures
        counts_in(final(peers)) == counts_in(old(peers)).insert(peer@, count),
{
    peers.insert(peer.to_owned(), count);
}

/// `DashMap::iter`: the keys that the map holds, each of them, in no
/// particular order.
#[verifier::external_body]
fn peers_in(peers: &DashMap<String, usize>) -> (keys: Vec<String>)
    ensures
        forall|peer: Seq<char>|
            counts_in(peers).contains_key(peer) <==> exists|i: int|
                0 <= i < keys@.len() && #[trigger] keys@[i]@ == peer,
{
    peers.iter().map(|held| held.key().clone()).collect()
}

/// A limiter as plain values.
pub struct LimiterView {
    pub counts: Map<Seq<char>, usize>,
    pub rps: i32,
    pub window_secs: u32,
}

/// The counter of requests by source, with its ceiling.
pub struct RateLimiter {
    peers: DashMap<String, usize>,
    rps: i32,
    window_secs: u32,
}

/// The most requests that a source may make in one window.
pub open spec fn ceiling(rps: i32, window_secs: u32) -> int {
    rps * window_secs
}

/// The count that is held for a source; zero for one that none is held for.
pub open spec fn count_for(counts: Map<Seq<char>, usize>, peer: Seq<char>) -> usize {
    if counts.contains_key(peer) {
        counts[peer]
    } else {
        0
    }
}

/// A count with one more request. A count that cannot grow stays.
pub open spec fn next_count(count: usize) -> usize {
    if count < usize::MAX {
        (count + 1) as usize
    } else {
        count
    }
}

/// The counts after one more request of `peer`.
pub open spec fn counts_after(counts: Map<Seq<char>, usize>, peer: Seq<char>) -> Map<
    Seq<char>,
    usize,
> {
    counts.insert(peer, next_count(count_for(counts, peer)))
}

/// The counts after `n` more requests of `peer`.
pub open spec fn counts_after_many(counts: Map<Seq<char>, usize>, peer: Seq<char>, n: nat) -> Map<
    Seq<char>,
    usize,
>
    decreases n,
{
    if n == 0 {
        counts
    } else {
        counts_after(counts_after_many(counts, peer, (n - 1) as nat), peer)
    }
}

/// Whether a source whose count, this request included, is `count` is let
/// through.
pub open spec fn admitted(count: usize, rps: i32, window_secs: u32) -> bool {
    count <= ceiling(rps, window_secs)
}

/// The counts with every one of them set to zero.
pub open spec fn counts_reset(counts: Map<Seq<char>, usize>) -> Map<Seq<char>, usize> {
    Map::new(|peer: Seq<char>| counts.contains_key(peer), |peer: Seq<char>| 0usize)
}

/// After a reset nothing is held against any source.
pub proof fn lemma_reset_clears(counts: Map<Seq<char>, usize>, peer: Seq<char>)
    ensures
        count_for(counts_reset(counts), peer) == 0,
{
}

/// A source that begins a window with a count of zero has, after `n`
/// requests, a count of `n`.
pub proof fn lemma_count_after_many(counts: Map<Seq<char>, usize>, peer: Seq<char>, n: nat)
    requires
        count_for(counts, peer) == 0,
        n <= usize::MAX,
    ensures
        count_for(counts_after_many(counts, peer, n), peer) == n,
    decreases n,
{
    if n > 0 {
        lemma_count_after_many(counts, peer, (n - 1) as nat);
    }
}

/// The `n`-th request that a source makes in a window is let through exactly
/// where `n` is within the ceiling: with one request per second and windows
/// of ten seconds the first ten are, and the eleventh is not.
pub proof fn lemma_nth_request(
    counts: Map<Seq<char>, usize>,
    peer: Seq<char>,
    n: nat,
    rps: i32,
    window_secs: u32,
)
    requires
        count_for(counts, peer) == 0,
        1 <= n <= usize::MAX,
    ensures
        admitted(count_for(counts_after_many(counts, peer, n), peer), rps, window_secs) <==> n
            <= ceiling(rps, window_secs),
{
    lemma_count_after_many(counts, peer, n);
}

/// The requests of one source leave the counts of all others as they were.
pub proof fn lemma_others_keep_their_counts(
    counts: Map<Seq<char>, usize>,
    peer: Seq<char>,
    other: Seq<char>,
    n: nat,
)
    requires
        other != peer,
    ensures
        count_for(counts_after_many(counts, peer, n), other) == count_for(counts, other),
    decreases n,
{
    if n > 0 {
        lemma_others_keep_their_counts(counts, peer, other, (n - 1) as nat);
    }
}

impl View for RateLimiter {
    type V = LimiterView;

    closed spec fn view(&self) -> LimiterView {
        LimiterView {
            counts: counts_in(&self.peers),
            rps: self.rps,
            window_secs: self.window_secs,
        }
    }
}

impl RateLimiter {
    /// A limiter that has counted nothing yet and lets each source make `rps`
    /// requests per second, counted over windows of `window_secs` seconds.
    pub fn new(rps: i32, window_secs: u32) -> (limiter: RateLimiter)
        ensures
            limiter@ == (LimiterView { counts: no_counts_yet(), rps, window_secs }),
    {
        RateLimiter { peers: no_counts(), rps, window_secs }
    }

    /// Whether a count is within the ceiling.
    pub fn admits(&self, count: usize) -> (yes: bool)
        ensures
            yes == admitted(count, self@.rps, self@.window_secs),
    {
        let rps = self.rps as i64;
        let secs = self.window_secs as i64;
        assert(-0x8000_0000 * 0xffff_ffff <= rps * secs <= 0x7fff_ffff * 0xffff_ffff)
            by (nonlinear_arith)
            requires
                -0x8000_0000 <= rps <= 0x7fff_ffff,
                0 <= secs <= 0xffff_ffff,
        ;
        let most: i64 = rps * secs;
        most >= 0 && (count as u64) <= (most as u64)
    }

    /// The count that is held for a source.
    pub fn count(&self, peer: &str) -> (count: usize)
        ensures
            count == count_for(self@.counts, peer@),
    {
        match count_in(&self.peers, peer) {
            Some(count) => count,
            None => 0,
        }
    }

    /// Counts one request of `peer` and says whether it is let through. The
    /// request is counted whether or not it is let through.
    pub fn allow(&mut self, peer: &str) -> (yes: bool)
        ensures
            final(self)@.counts == counts_after(old(self)@.counts, peer@),
            final(self)@.rps == old(self)@.rps,
            final(self)@.window_secs == old(self)@.window_secs,
            yes == admitted(
                count_for(final(self)@.counts, peer@),
                old(self)@.rps,
                old(self)@.window_secs,
            ),
    {
        let held = self.count(peer);
        let count: usize = if held < usize::MAX {
            held + 1
        } else {
            held
        };
        set_count(&mut self.peers, peer, count);
        self.admits(count)
    }

    /// Sets every count back to zero. The sources that were counted stay
    /// known.
    pub fn reset(&mut self)
        ensures
            final(self)@.counts == counts_reset(old(self)@.counts),
            final(self)@.rps == old(self)@.rps,
            final(self)@.window_secs == old(self)@.window_secs,
    {
        let keys = peers_in(&self.peers);
        let ghost before = counts_in(&self.peers);
        let mut i: usize = 0;
        while i < keys.len()
            invariant
                i <= keys.len(),
                self.rps == old(self).rps,
                self.window_secs == old(self).window_secs,
                forall|peer: Seq<char>|
                    before.contains_key(peer) <==> exists|k: int|
                        0 <= k < keys@.len() && #[trigger] keys@[k]@ == peer,
                counts_in(&self.peers).dom() == before.dom(),
                forall|k: int| 0 <= k < i ==> counts_in(&self.peers)[#[trigger] keys@[k]@] == 0,
            decreases keys.len() - i,
        {
            let ghost held = counts_in(&self.peers);
            set_count(&mut self.peers, keys[i].as_str(), 0);
            assert(before.contains_key(keys@[i as int]@));
            assert(counts_in(&self.peers).dom() =~= held.dom());
            i += 1;
        }
        assert(counts_in(&self.peers) =~= counts_reset(before)) by {
            assert forall|peer: Seq<char>| before.contains_key(peer) implies counts_in(
                &self.peers,
            )[peer] == 0 by {
                let k = choose|k: int| 0 <= k < keys@.len() && #[trigger] keys@[k]@ == peer;
                assert(counts_in(&self.peers)[keys@[k]@] == 0);
            }
        }
    }
}

} // verus!
