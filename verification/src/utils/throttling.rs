use vstd::prelude::*;
use crate::utils::clock::utc_now;
use crate::utils::settings::{Authenticator, Blockchain};

verus! {

/// An instant in UTC: whole seconds since the Unix epoch and the nanoseconds
/// past that second.
#[derive(Clone, Copy, Debug, PartialEq, Eq, Structural)]
pub struct Timestamp {
    pub secs: i64,
    pub nanos: u32,
}

/// The instant `t` in nanoseconds since the epoch.
pub open spec fn instant_nanos(t: Timestamp) -> int {
    t.secs * 1_000_000_000 + t.nanos
}

/// Division rounded toward zero.
pub open spec fn trunc_div(a: int, b: int) -> int {
    if a >= 0 {
        a / b
    } else {
        -((-a) / b)
    }
}

/// The whole seconds from `then` to `now`, rounded toward zero (negative
/// when `then` is later than `now`).
pub open spec fn age_seconds(now: Timestamp, then: Timestamp) -> int {
    trunc_div(instant_nanos(now) - instant_nanos(then), 1_000_000_000)
}

/// One request seen by the throttle: who made it, from which address (in
/// its canonical text form) and when.
pub struct AccessStatistic {
    pub account_name: String,
    pub ip_address: String,
    pub timestamp: Timestamp,
}

/// All accesses recorded under one identifier.
pub struct AccessBucket {
    identifier: String,
    accesses: Vec<AccessStatistic>,
}

/// The recorded accesses, grouped by the identifier `account-address`.
pub struct AccessStatistics {
    buckets: Vec<AccessBucket>,
}

/// The identifier under which the accesses of `account` from `ip` are kept.
pub open spec fn access_identifier(account: Seq<char>, ip: Seq<char>) -> Seq<char> {
    account + seq!['-'] + ip
}

/// `a` is a request of `account` from `ip` that is younger than `window`
/// seconds at `now`.
pub open spec fn counts_toward(
    a: AccessStatistic,
    account: Seq<char>,
    ip: Seq<char>,
    now: Timestamp,
    window: int,
) -> bool {
    &&& age_seconds(now, a.timestamp) < window
    &&& a.account_name@ == account
    &&& a.ip_address@ == ip
}

/// How many accesses of `s` count toward the limit of `account` from `ip`.
pub open spec fn recent_count(
    s: Seq<AccessStatistic>,
    account: Seq<char>,
    ip: Seq<char>,
    now: Timestamp,
    window: int,
) -> nat
    decreases s.len(),
{
    if s.len() == 0 {
        0
    } else {
        recent_count(s.drop_last(), account, ip, now, window) + if counts_toward(
            s.last(),
            account,
            ip,
            now,
            window,
        ) {
            1nat
        } else {
            0nat
        }
    }
}

/// The accesses of `s` younger than `limit` seconds at `now`, in order.
pub open spec fn still_fresh(s: Seq<AccessStatistic>, now: Timestamp, limit: int) -> Seq<
    AccessStatistic,
>
    decreases s.len(),
{
    if s.len() == 0 {
        Seq::empty()
    } else {
        still_fresh(s.drop_last(), now, limit) + if age_seconds(now, s.last().timestamp) < limit {
            seq![s.last()]
        } else {
            Seq::empty()
        }
    }
}

/// `kept` is what `still_fresh` keeps of `s` at some instant.
pub open spec fn fresh_at_some_instant(kept: Seq<AccessStatistic>, s: Seq<AccessStatistic>, limit: int) -> bool {
    exists|now: Timestamp| kept == #[trigger] still_fresh(s, now, limit)
}

/// The statistics `m` cleaned at `now`: under every identifier, the accesses
/// younger than `limit` seconds at `now`.
pub open spec fn cleaned_at(m: Map<Seq<char>, Seq<AccessStatistic>>, now: Timestamp, limit: int) -> Map<
    Seq<char>,
    Seq<AccessStatistic>,
> {
    m.map_values(|s: Seq<AccessStatistic>| still_fresh(s, now, limit))
}

/// The accesses kept under `id` (none when the identifier is unknown).
pub open spec fn history(m: Map<Seq<char>, Seq<AccessStatistic>>, id: Seq<char>) -> Seq<
    AccessStatistic,
> {
    if m.contains_key(id) {
        m[id]
    } else {
        Seq::empty()
    }
}

/// The map from identifier to accesses that the buckets `s` hold.
spec fn bucket_map(s: Seq<AccessBucket>) -> Map<Seq<char>, Seq<AccessStatistic>>
    decreases s.len(),
{
    if s.len() == 0 {
        Map::empty()
    } else {
        bucket_map(s.drop_last()).insert(s.last().identifier@, s.last().accesses@)
    }
}

/// No identifier occurs twice among the buckets `s`.
spec fn unique_identifiers(s: Seq<AccessBucket>) -> bool {
    forall|i: int, j: int|
        0 <= i < j < s.len() ==> (#[trigger] s[i]).identifier@ != (#[trigger] s[j]).identifier@
}

proof fn lemma_bucket_map_dom(s: Seq<AccessBucket>, k: Seq<char>)
    ensures
        bucket_map(s).contains_key(k) <==> exists|i: int|
            0 <= i < s.len() && (#[trigger] s[i]).identifier@ == k,
    decreases s.len(),
{
    if s.len() > 0 {
        let t = s.drop_last();
        lemma_bucket_map_dom(t, k);
        if bucket_map(s).contains_key(k) {
            if k != s.last().identifier@ {
                let i = choose|i: int| 0 <= i < t.len() && (#[trigger] t[i]).identifier@ == k;
                assert(s[i] == t[i]);
            } else {
                assert(s[s.len() - 1].identifier@ == k);
            }
        }
        if exists|i: int| 0 <= i < s.len() && (#[trigger] s[i]).identifier@ == k {
            let i = choose|i: int| 0 <= i < s.len() && (#[trigger] s[i]).identifier@ == k;
            if i < s.len() - 1 {
                assert(t[i] == s[i]);
            }
        }
    }
}

proof fn lemma_bucket_map_at(s: Seq<AccessBucket>, i: int)
    requires
        unique_identifiers(s),
        0 <= i < s.len(),
    ensures
        bucket_map(s).contains_key(s[i].identifier@),
        bucket_map(s)[s[i].identifier@] == s[i].accesses@,
    decreases s.len(),
{
    let t = s.drop_last();
    if i < s.len() - 1 {
        assert(t[i] == s[i]);
        assert(unique_identifiers(t)) by {
            assert forall|a: int, b: int| 0 <= a < b < t.len() implies (#[trigger] t[a]).identifier@
                != (#[trigger] t[b]).identifier@ by {
                assert(t[a] == s[a] && t[b] == s[b]);
            }
        }
        lemma_bucket_map_at(t, i);
        assert(s[i].identifier@ != s[s.len() - 1].identifier@);
    }
}

proof fn lemma_unique_prefix(s: Seq<AccessBucket>)
    requires
        unique_identifiers(s),
        s.len() > 0,
    ensures
        unique_identifiers(s.drop_last()),
{
    let t = s.drop_last();
    assert forall|a: int, b: int| 0 <= a < b < t.len() implies (#[trigger] t[a]).identifier@
        != (#[trigger] t[b]).identifier@ by {
        assert(t[a] == s[a] && t[b] == s[b]);
    }
}

proof fn lemma_bucket_map_update(s: Seq<AccessBucket>, j: int, b: AccessBucket)
    requires
        unique_identifiers(s),
        0 <= j < s.len(),
        b.identifier@ == s[j].identifier@,
    ensures
        bucket_map(s.update(j, b)) =~= bucket_map(s).insert(b.identifier@, b.accesses@),
    decreases s.len(),
{
    let n = s.len() - 1;
    let u = s.update(j, b);
    if j == n {
        assert(u.drop_last() =~= s.drop_last());
    } else {
        lemma_unique_prefix(s);
        assert(u.drop_last() =~= s.drop_last().update(j, b));
        assert(s.drop_last()[j] == s[j]);
        lemma_bucket_map_update(s.drop_last(), j, b);
        assert(s[j].identifier@ != s[n].identifier@);
    }
}

/// Buckets with the same identifiers, in the same order, describe maps with
/// the same keys.
proof fn lemma_bucket_map_same_keys(s: Seq<AccessBucket>, u: Seq<AccessBucket>)
    requires
        s.len() == u.len(),
        forall|i: int| 0 <= i < s.len() ==> (#[trigger] s[i]).identifier@ == u[i].identifier@,
    ensures
        bucket_map(u).dom() =~= bucket_map(s).dom(),
        unique_identifiers(s) ==> unique_identifiers(u),
{
    assert forall|k: Seq<char>| bucket_map(u).contains_key(k) <==> bucket_map(s).contains_key(k) by {
        lemma_bucket_map_dom(s, k);
        lemma_bucket_map_dom(u, k);
        if bucket_map(u).contains_key(k) {
            let i = choose|i: int| 0 <= i < u.len() && (#[trigger] u[i]).identifier@ == k;
            assert(s[i].identifier@ == k);
        }
        if bucket_map(s).contains_key(k) {
            let i = choose|i: int| 0 <= i < s.len() && (#[trigger] s[i]).identifier@ == k;
            assert(u[i].identifier@ == k);
        }
    }
    if unique_identifiers(s) {
        assert forall|a: int, b: int| 0 <= a < b < u.len() implies (#[trigger] u[a]).identifier@
            != (#[trigger] u[b]).identifier@ by {
            assert(s[a].identifier@ == u[a].identifier@);
            assert(s[b].identifier@ == u[b].identifier@);
        }
    }
}

/// Whether the access made at `then` is younger than `limit` seconds at `now`.
fn younger_than(now: &Timestamp, then: &Timestamp, limit: i64) -> (b: bool)
    ensures
        b == (age_seconds(*now, *then) < limit),
{
    let n: i128 = now.secs as i128 * 1_000_000_000i128 + now.nanos as i128;
    let t: i128 = then.secs as i128 * 1_000_000_000i128 + then.nanos as i128;
    let d: i128 = n - t;
    let age: i128 = if d >= 0 {
        (d as u128 / 1_000_000_000u128) as i128
    } else {
        let m: u128 = (-d) as u128;
        -((m / 1_000_000_000u128) as i128)
    };
    age < limit as i128
}

/// The accesses of `accesses` younger than `limit` seconds at `now`.
fn keep_fresh(accesses: Vec<AccessStatistic>, now: &Timestamp, limit: i64) -> (kept: Vec<
    AccessStatistic,
>)
    ensures
        kept@ == still_fresh(accesses@, *now, limit as int),
{
    let ghost all = accesses@;
    let mut kept: Vec<AccessStatistic> = Vec::new();
    proof {
        assert(all.take(0) =~= Seq::<AccessStatistic>::empty());
    }
    for access in it: accesses.into_iter()
        invariant
            it.seq() == all,
            kept@ == still_fresh(all.take(it.index() as int), *now, limit as int),
    {
        proof {
            let t = all.take(it.index() + 1);
            assert(t.drop_last() =~= all.take(it.index() as int));
            assert(t.last() == access);
        }
        if younger_than(now, &access.timestamp, limit) {
            kept.push(access);
        }
    }
    proof {
        assert(all.take(all.len() as int) =~= all);
    }
    kept
}

/// After replacing the accesses of some buckets, keeping every identifier in
/// place, each identifier maps to the accesses of its new bucket.
proof fn lemma_bucket_map_pointwise(s: Seq<AccessBucket>, u: Seq<AccessBucket>)
    requires
        unique_identifiers(s),
        s.len() == u.len(),
        forall|i: int| 0 <= i < s.len() ==> (#[trigger] s[i]).identifier@ == u[i].identifier@,
    ensures
        unique_identifiers(u),
        bucket_map(u).dom() =~= bucket_map(s).dom(),
        forall|i: int|
            0 <= i < s.len() ==> bucket_map(u)[(#[trigger] s[i]).identifier@] == u[i].accesses@
                && bucket_map(s)[s[i].identifier@] == s[i].accesses@,
        forall|k: Seq<char>|
            #![trigger bucket_map(s).contains_key(k)]
            bucket_map(s).contains_key(k) ==> exists|i: int|
                0 <= i < s.len() && (#[trigger] s[i]).identifier@ == k,
{
    lemma_bucket_map_same_keys(s, u);
    assert forall|i: int| 0 <= i < s.len() implies bucket_map(u)[(#[trigger] s[i]).identifier@]
        == u[i].accesses@ && bucket_map(s)[s[i].identifier@] == s[i].accesses@ by {
        lemma_bucket_map_at(s, i);
        lemma_bucket_map_at(u, i);
    }
    assert forall|k: Seq<char>| #![trigger bucket_map(s).contains_key(k)] bucket_map(
        s,
    ).contains_key(k) implies exists|i: int|
        0 <= i < s.len() && (#[trigger] s[i]).identifier@ == k by {
        lemma_bucket_map_dom(s, k);
    }
}

impl View for AccessStatistics {
    type V = Map<Seq<char>, Seq<AccessStatistic>>;

    closed spec fn view(&self) -> Map<Seq<char>, Seq<AccessStatistic>> {
        bucket_map(self.buckets@)
    }
}

impl AccessStatistics {
    /// The buckets hold each identifier once.
    pub closed spec fn wf(&self) -> bool {
        unique_identifiers(self.buckets@)
    }

    /// No access recorded yet.
    pub fn new() -> (s: Self)
        ensures
            s.wf(),
            s@ == Map::<Seq<char>, Seq<AccessStatistic>>::empty(),
    {
        AccessStatistics { buckets: Vec::new() }
    }

    /// Records a request of `account_name` from `ip` at `now` and tells
    /// whether it may go ahead: it may unless more than
    /// `request_amount_limit` of the requests recorded under its identifier
    /// (this one included) are from the same account and address and younger
    /// than `request_time_limit` seconds.
    pub fn permission_at(
        &mut self,
        account_name: &String,
        ip: &String,
        now: Timestamp,
        limits: &Blockchain,
    ) -> (allowed: bool)
        requires
            old(self).wf(),
        ensures
            final(self).wf(),
            final(self)@ == old(self)@.insert(
                access_identifier(account_name@, ip@),
                history(old(self)@, access_identifier(account_name@, ip@)).push(
                    (AccessStatistic { account_name: *account_name, ip_address: *ip, timestamp: now }),
                ),
            ),
            allowed == (recent_count(
                final(self)@[access_identifier(account_name@, ip@)],
                account_name@,
                ip@,
                now,
                limits.request_time_limit as int,
            ) <= limits.request_amount_limit),
    {
        let ghost id = access_identifier(account_name@, ip@);
        let mut identifier = String::new();
        identifier.append(account_name.as_str());
        identifier.append("-");
        identifier.append(ip.as_str());
        proof {
            reveal_strlit("-");
            assert(identifier@ =~= id);
        }
        let access = AccessStatistic {
            account_name: account_name.clone(),
            ip_address: ip.clone(),
            timestamp: now,
        };

        let mut idx: usize = 0;
        let mut found = false;
        while idx < self.buckets.len()
            invariant_except_break
                !found,
            invariant
                idx <= self.buckets@.len(),
                forall|j: int| 0 <= j < idx ==> (#[trigger] self.buckets@[j]).identifier@ != id,
                identifier@ == id,
            ensures
                found ==> idx < self.buckets@.len() && self.buckets@[idx as int].identifier@ == id,
                !found ==> idx == self.buckets@.len(),
                forall|j: int| 0 <= j < idx ==> (#[trigger] self.buckets@[j]).identifier@ != id,
            decreases self.buckets@.len() - idx,
        {
            if self.buckets[idx].identifier == identifier {
                found = true;
                break;
            }
            idx += 1;
        }
        let ghost old_buckets = self.buckets@;
        if found {
            proof {
                lemma_bucket_map_at(old_buckets, idx as int);
            }
            self.buckets[idx].accesses.push(access);
            proof {
                lemma_bucket_map_update(old_buckets, idx as int, self.buckets@[idx as int]);
            }
        } else {
            proof {
                lemma_bucket_map_dom(old_buckets, id);
            }
            let mut accesses = Vec::new();
            accesses.push(access);
            self.buckets.push(AccessBucket { identifier, accesses });
            idx = self.buckets.len() - 1;
            proof {
                assert(self.buckets@.drop_last() =~= old_buckets);
                assert forall|a: int, b: int|
                    0 <= a < b < self.buckets@.len() implies (#[trigger] self.buckets@[a]).identifier@
                    != (#[trigger] self.buckets@[b]).identifier@ by {
                    if b < old_buckets.len() {
                        assert(self.buckets@[a] == old_buckets[a]);
                        assert(self.buckets@[b] == old_buckets[b]);
                    } else {
                        assert(self.buckets@[a] == old_buckets[a]);
                    }
                }
            }
        }
        proof {
            lemma_bucket_map_at(self.buckets@, idx as int);
        }

        let mut amount_user_requests: u64 = 0;
        let entries = &self.buckets[idx].accesses;
        let mut k: usize = 0;
        proof {
            assert(entries@.take(0) =~= Seq::<AccessStatistic>::empty());
        }
        while k < entries.len()
            invariant
                k <= entries@.len(),
                amount_user_requests == recent_count(
                    entries@.take(k as int),
                    account_name@,
                    ip@,
                    now,
                    limits.request_time_limit as int,
                ),
                amount_user_requests <= k,
            decreases entries@.len() - k,
        {
            let access = &entries[k];
            if younger_than(&now, &access.timestamp, limits.request_time_limit)
                && *account_name == access.account_name && *ip == access.ip_address {
                amount_user_requests += 1;
            }
            proof {
                let t = entries@.take(k + 1);
                assert(t.drop_last() =~= entries@.take(k as int));
                assert(t.last() == entries@[k as int]);
            }
            k += 1;
        }
        proof {
            assert(entries@.take(entries@.len() as int) =~= entries@);
        }

        if limits.request_amount_limit < 0 || amount_user_requests > limits.request_amount_limit
            as u64 {
            return false;
        }
        true
    }

    /// How many accesses are recorded under `identifier`.
    pub fn recorded(&self, identifier: &String) -> (n: usize)
        requires
            self.wf(),
        ensures
            n == history(self@, identifier@).len(),
    {
        let mut i: usize = 0;
        while i < self.buckets.len()
            invariant
                i <= self.buckets@.len(),
                self.wf(),
                forall|j: int| 0 <= j < i ==> (#[trigger] self.buckets@[j]).identifier@ != identifier@,
            decreases self.buckets@.len() - i,
        {
            if self.buckets[i].identifier == *identifier {
                proof {
                    lemma_bucket_map_at(self.buckets@, i as int);
                }
                return self.buckets[i].accesses.len();
            }
            i += 1;
        }
        proof {
            lemma_bucket_map_dom(self.buckets@, identifier@);
        }
        0
    }

    /// Replaces the accesses of bucket `i` by those still younger than
    /// `limit` seconds at `now`.
    fn clean_bucket_at(&mut self, i: usize, now: &Timestamp, limit: i64)
        requires
            i < old(self).buckets@.len(),
        ensures
            final(self).buckets@.len() == old(self).buckets@.len(),
            forall|j: int|
                0 <= j < old(self).buckets@.len() && j != i ==> final(self).buckets@[j] == old(
                    self,
                ).buckets@[j],
            final(self).buckets@[i as int].identifier == old(self).buckets@[i as int].identifier,
            final(self).buckets@[i as int].accesses@ == still_fresh(
                old(self).buckets@[i as int].accesses@,
                *now,
                limit as int,
            ),
    {
        let mut taken: Vec<AccessStatistic> = Vec::new();
        std::mem::swap(&mut taken, &mut self.buckets[i].accesses);
        let kept = keep_fresh(taken, now, limit);
        self.buckets[i].accesses = kept;
    }

    /// Drops, under every identifier, the accesses that are not younger than
    /// `old_entry_limit` seconds at `now`; the identifiers all stay.
    pub fn clean_at(&mut self, now: Timestamp, old_entry_limit: i64)
        requires
            old(self).wf(),
        ensures
            final(self).wf(),
            final(self)@ == old(self)@.map_values(
                |s: Seq<AccessStatistic>| still_fresh(s, now, old_entry_limit as int),
            ),
    {
        let ghost orig = self.buckets@;
        let mut i: usize = 0;
        while i < self.buckets.len()
            invariant
                self.buckets@.len() == orig.len(),
                i <= orig.len(),
                forall|j: int| 0 <= j < orig.len() ==> (#[trigger] self.buckets@[j]).identifier@
                    == orig[j].identifier@,
                forall|j: int|
                    0 <= j < i ==> (#[trigger] self.buckets@[j]).accesses@ == still_fresh(
                        orig[j].accesses@,
                        now,
                        old_entry_limit as int,
                    ),
                forall|j: int| i <= j < orig.len() ==> #[trigger] self.buckets@[j] == orig[j],
            decreases orig.len() - i,
        {
            self.clean_bucket_at(i, &now, old_entry_limit);
            i += 1;
        }
        proof {
            lemma_bucket_map_pointwise(orig, self.buckets@);
            let f = |s: Seq<AccessStatistic>| still_fresh(s, now, old_entry_limit as int);
            assert forall|k: Seq<char>| bucket_map(orig).contains_key(k) implies bucket_map(
                self.buckets@,
            )[k] == f(bucket_map(orig)[k]) by {
                let j = choose|j: int| 0 <= j < orig.len() && (#[trigger] orig[j]).identifier@ == k;
                assert(self.buckets@[j].accesses@ == still_fresh(
                    orig[j].accesses@,
                    now,
                    old_entry_limit as int,
                ));
            }
            assert(self@ =~= bucket_map(orig).map_values(f));
        }
    }
}

/// Records a request of `account_name` from `ip` at the current UTC time and
/// tells whether it may go ahead (see `AccessStatistics::permission_at`,
/// which decides for the instant that the clock gave).
pub fn permission(
    stats: &mut AccessStatistics,
    account_name: &String,
    ip: &String,
    limits: &Blockchain,
) -> (allowed: bool)
    requires
        old(stats).wf(),
    ensures
        final(stats).wf(),
        exists|now: Timestamp|
            {
                &&& final(stats)@ == old(stats)@.insert(
                    access_identifier(account_name@, ip@),
                    history(old(stats)@, access_identifier(account_name@, ip@)).push(
                        (AccessStatistic { account_name: *account_name, ip_address: *ip, timestamp: now }),
                    ),
                )
                &&& allowed == (recent_count(
                    final(stats)@[access_identifier(account_name@, ip@)],
                    account_name@,
                    ip@,
                    now,
                    limits.request_time_limit as int,
                ) <= limits.request_amount_limit)
            },
{
    let now = utc_now();
    stats.permission_at(account_name, ip, now, limits)
}

/// Drops the accesses that have grown old: the clock is read once, and under
/// every identifier the accesses not younger than `throttling_old_entry`
/// seconds at that reading are dropped; the identifiers all stay.
pub fn clean(stats: &mut AccessStatistics, settings: &Authenticator)
    requires
        old(stats).wf(),
    ensures
        final(stats).wf(),
        final(stats)@.dom() == old(stats)@.dom(),
        forall|k: Seq<char>|
            #[trigger] old(stats)@.contains_key(k) ==> fresh_at_some_instant(
                final(stats)@[k],
                old(stats)@[k],
                settings.throttling_old_entry as int,
            ),
        exists|now: Timestamp|
            #[trigger] cleaned_at(old(stats)@, now, settings.throttling_old_entry as int)
                == final(stats)@,
{
    let limit = settings.throttling_old_entry;
    let now = utc_now();
    stats.clean_at(now, limit);
    proof {
        assert(cleaned_at(old(stats)@, now, limit as int) == stats@);
        assert forall|k: Seq<char>| #[trigger] old(stats)@.contains_key(k) implies fresh_at_some_instant(
            stats@[k],
            old(stats)@[k],
            limit as int,
        ) by {
            assert(stats@[k] == still_fresh(old(stats)@[k], now, limit as int));
        }
    }
}

/// Cleaning at `now` keeps exactly the accesses younger than `limit`
/// seconds at `now`: each of them is kept, every access kept is one of them,
/// and none is added.
pub proof fn lemma_clean_keeps_exactly_the_young(s: Seq<AccessStatistic>, now: Timestamp, limit: int)
    ensures
        forall|i: int|
            0 <= i < s.len() && age_seconds(now, s[i].timestamp) < limit ==> still_fresh(
                s,
                now,
                limit,
            ).contains(#[trigger] s[i]),
        forall|a: AccessStatistic|
            #[trigger] still_fresh(s, now, limit).contains(a) ==> s.contains(a) && age_seconds(
                now,
                a.timestamp,
            ) < limit,
        still_fresh(s, now, limit).len() <= s.len(),
    decreases s.len(),
{
    if s.len() > 0 {
        let t = s.drop_last();
        lemma_clean_keeps_exactly_the_young(t, now, limit);
        let kt = still_fresh(t, now, limit);
        let k = still_fresh(s, now, limit);
        assert forall|i: int|
            0 <= i < s.len() && age_seconds(now, s[i].timestamp) < limit implies k.contains(
                #[trigger] s[i],
            ) by {
            if i < s.len() - 1 {
                assert(s[i] == t[i]);
                assert(kt.contains(t[i]));
                let j = choose|j: int| 0 <= j < kt.len() && kt[j] == t[i];
                assert(k[j] == kt[j]);
            } else {
                assert(k[k.len() - 1] == s.last());
            }
        }
        assert forall|a: AccessStatistic| #[trigger] k.contains(a) implies s.contains(a)
            && age_seconds(now, a.timestamp) < limit by {
            let j = choose|j: int| 0 <= j < k.len() && k[j] == a;
            if j < kt.len() {
                assert(kt[j] == a);
                assert(kt.contains(a));
                let m = choose|m: int| 0 <= m < t.len() && t[m] == a;
                assert(s[m] == a);
            } else {
                assert(a == s.last());
                assert(s[s.len() - 1] == a);
            }
        }
    }
}

/// A request counts toward its own limit: recording a request of `account`
/// from `ip` at `now` raises the count at `now` by one, whatever came
/// before, when the window is positive.
pub proof fn lemma_request_counts_itself(
    h: Seq<AccessStatistic>,
    a: AccessStatistic,
    account: Seq<char>,
    ip: Seq<char>,
    window: int,
)
    requires
        a.account_name@ == account,
        a.ip_address@ == ip,
        window > 0,
    ensures
        recent_count(h.push(a), account, ip, a.timestamp, window) == recent_count(
            h,
            account,
            ip,
            a.timestamp,
            window,
        ) + 1,
{
    assert(h.push(a).drop_last() =~= h);
    assert(age_seconds(a.timestamp, a.timestamp) == 0);
}

/// Recording one more access never lowers a count.
proof fn lemma_count_grows(
    h: Seq<AccessStatistic>,
    a: AccessStatistic,
    account: Seq<char>,
    ip: Seq<char>,
    now: Timestamp,
    window: int,
)
    ensures
        recent_count(h.push(a), account, ip, now, window) >= recent_count(
            h,
            account,
            ip,
            now,
            window,
        ),
{
    assert(h.push(a).drop_last() =~= h);
}

/// A refusal lasts: once a request of `account` from `ip` at `now` has been
/// refused, repeating it at the same instant (with the same limits) is
/// refused as well.
pub proof fn lemma_refusal_persists(
    before: Map<Seq<char>, Seq<AccessStatistic>>,
    account_name: String,
    ip: String,
    now: Timestamp,
    limits: Blockchain,
)
    requires
        ({
            let id = access_identifier(account_name@, ip@);
            let a = AccessStatistic { account_name, ip_address: ip, timestamp: now };
            let after = before.insert(id, history(before, id).push(a));
            recent_count(after[id], account_name@, ip@, now, limits.request_time_limit as int)
                > limits.request_amount_limit
        }),
    ensures
        ({
            let id = access_identifier(account_name@, ip@);
            let a = AccessStatistic { account_name, ip_address: ip, timestamp: now };
            let after = before.insert(id, history(before, id).push(a));
            let again = after.insert(id, history(after, id).push(a));
            recent_count(again[id], account_name@, ip@, now, limits.request_time_limit as int)
                > limits.request_amount_limit
        }),
{
    let id = access_identifier(account_name@, ip@);
    let a = AccessStatistic { account_name, ip_address: ip, timestamp: now };
    let after = before.insert(id, history(before, id).push(a));
    assert(history(after, id) == after[id]);
    lemma_count_grows(after[id], a, account_name@, ip@, now, limits.request_time_limit as int);
}

/// Cleaning never forgets a request that still counts: with an age limit no
/// shorter than the throttle window, the accesses kept at `now` count
/// exactly as many at `now` as all of them did.
pub proof fn lemma_clean_keeps_counted(
    s: Seq<AccessStatistic>,
    account: Seq<char>,
    ip: Seq<char>,
    now: Timestamp,
    window: int,
    old_entry: int,
)
    requires
        window <= old_entry,
    ensures
        recent_count(still_fresh(s, now, old_entry), account, ip, now, window) == recent_count(
            s,
            account,
            ip,
            now,
            window,
        ),
    decreases s.len(),
{
    if s.len() > 0 {
        let t = s.drop_last();
        lemma_clean_keeps_counted(t, account, ip, now, window, old_entry);
        let kept_t = still_fresh(t, now, old_entry);
        if age_seconds(now, s.last().timestamp) < old_entry {
            assert(still_fresh(s, now, old_entry) == kept_t.push(s.last()));
            assert(kept_t.push(s.last()).drop_last() =~= kept_t);
        } else {
            assert(still_fresh(s, now, old_entry) =~= kept_t);
        }
    }
}

/// Cleaning does not change a throttle decision: when the clean-up age
/// limit is no shorter than the throttle window, a request decided at the
/// instant of a clean-up (`clean_at`) gets the same count, hence the same
/// answer from `permission_at`, as it would have got without it.
pub proof fn lemma_clean_then_permission(
    m: Map<Seq<char>, Seq<AccessStatistic>>,
    account_name: String,
    ip: String,
    now: Timestamp,
    old_entry_limit: i64,
    limits: Blockchain,
)
    requires
        limits.request_time_limit <= old_entry_limit,
    ensures
        ({
            let id = access_identifier(account_name@, ip@);
            let a = AccessStatistic { account_name, ip_address: ip, timestamp: now };
            let cleaned = m.map_values(
                |s: Seq<AccessStatistic>| still_fresh(s, now, old_entry_limit as int),
            );
            recent_count(
                cleaned.insert(id, history(cleaned, id).push(a))[id],
                account_name@,
                ip@,
                now,
                limits.request_time_limit as int,
            ) == recent_count(
                m.insert(id, history(m, id).push(a))[id],
                account_name@,
                ip@,
                now,
                limits.request_time_limit as int,
            )
        }),
{
    let id = access_identifier(account_name@, ip@);
    let a = AccessStatistic { account_name, ip_address: ip, timestamp: now };
    let cleaned = m.map_values(|s: Seq<AccessStatistic>| still_fresh(s, now, old_entry_limit as int));
    let h = history(m, id);
    let w = limits.request_time_limit as int;
    assert(history(cleaned, id) == still_fresh(h, now, old_entry_limit as int));
    lemma_clean_keeps_counted(h, account_name@, ip@, now, w, old_entry_limit as int);
    let k = still_fresh(h, now, old_entry_limit as int);
    assert(k.push(a).drop_last() =~= k);
    assert(h.push(a).drop_last() =~= h);
}

/// Within one window every request counts: when all the accesses `h` are
/// requests of `account` from `ip` younger than `window` seconds at `now`,
/// all of them count toward the limit at `now`.
pub proof fn lemma_window_counts_all(
    h: Seq<AccessStatistic>,
    account: Seq<char>,
    ip: Seq<char>,
    now: Timestamp,
    window: int,
)
    requires
        forall|j: int|
            0 <= j < h.len() ==> counts_toward(#[trigger] h[j], account, ip, now, window),
    ensures
        recent_count(h, account, ip, now, window) == h.len(),
    decreases h.len(),
{
    if h.len() > 0 {
        let t = h.drop_last();
        assert forall|j: int| 0 <= j < t.len() implies counts_toward(
            #[trigger] t[j],
            account,
            ip,
            now,
            window,
        ) by {
            assert(t[j] == h[j]);
        }
        lemma_window_counts_all(t, account, ip, now, window);
        assert(counts_toward(h[h.len() - 1], account, ip, now, window));
    }
}

/// The limit within one window: when the accesses recorded under the
/// identifier of `account` and `ip` (this request included, as
/// `permission_at` records it) are all requests of that account from that
/// address younger than the window at `now`, the request is allowed exactly
/// when it is at most the `request_amount_limit`-th of them. Hence, with no
/// clean-up in between, the i-th request of a window is allowed iff
/// i <= limit, and once one is refused every later one in the window is too.
pub proof fn lemma_limit_within_window(
    h: Seq<AccessStatistic>,
    account: Seq<char>,
    ip: Seq<char>,
    now: Timestamp,
    limits: Blockchain,
)
    requires
        forall|j: int|
            0 <= j < h.len() ==> counts_toward(
                #[trigger] h[j],
                account,
                ip,
                now,
                limits.request_time_limit as int,
            ),
    ensures
        (recent_count(h, account, ip, now, limits.request_time_limit as int)
            <= limits.request_amount_limit) == (h.len() <= limits.request_amount_limit),
{
    lemma_window_counts_all(h, account, ip, now, limits.request_time_limit as int);
}

} // verus!
