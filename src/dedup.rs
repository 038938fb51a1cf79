use chashmap::CHashMap;
use vstd::prelude::*;

verus! {

#[verifier::external_type_specification]
#[verifier::external_body]
#[verifier::reject_recursive_types(K)]
#[verifier::reject_recursive_types(V)]
pub struct ExCHashMap<K, V>(CHashMap<K, V>);

/// What a map of last replies holds: for each address, the time of the last
/// reply, in seconds since the epoch.
pub uninterp spec fn sent_entries(m: CHashMap<String, i64>) -> Map<Seq<char>, i64>;

/// Relies on `CHashMap::new`: a new map holds no entry.
#[verifier::external_body]
fn new_sent_map() -> (r: CHashMap<String, i64>)
    ensures
        sent_entries(r).dom() == Set::<Seq<char>>::empty(),
        sent_entries(r).dom().finite(),
{
    CHashMap::new()
}

/// Relies on `CHashMap::get`: the value stored under `key`, if any.
///
/// The lookup probes from the key's bucket until it finds the key or an empty
/// bucket, and would panic if the table had none. This map only grows through
/// `sent_insert`, and `LastResponseLog::log_send_at` calls that only right
/// after `sent_compact` rebuilt the table with at least four buckets per live
/// entry (and at least eight), none of them marked removed: so one insert
/// later an empty bucket is always left, and the probe ends.
#[verifier::external_body]
fn sent_get(m: &CHashMap<String, i64>, key: &String) -> (r: Option<i64>)
    ensures
        r == (if sent_entries(*m).contains_key(key@) {
            Some(sent_entries(*m)[key@])
        } else {
            None
        }),
{
    m.get(key).map(|g| *g)
}

/// Relies on `CHashMap::insert`: `key` maps to `val` afterwards, every other
/// entry stays.
#[verifier::external_body]
fn sent_insert(m: &mut CHashMap<String, i64>, key: String, val: i64)
    ensures
        sent_entries(*final(m)) == sent_entries(*old(m)).insert(key@, val),
        sent_entries(*old(m)).dom().finite() ==> sent_entries(*final(m)).dom().finite(),
{
    m.insert(key, val);
}

/// Relies on `CHashMap::retain`: the entries for which the predicate holds stay,
/// unchanged, and all others go. The predicate here keeps what is recent.
#[verifier::external_body]
fn sent_retain_recent(m: &mut CHashMap<String, i64>, window: i64, now: i64)
    ensures
        sent_entries(*final(m)) == recent_entries(sent_entries(*old(m)), window as int, now as int),
{
    m.retain(|_, v| is_recent(window, *v, now))
}

/// Relies on `CHashMap::shrink_to_fit`: the table is rebuilt, sized for its
/// live entries, which it keeps unchanged.
#[verifier::external_body]
fn sent_compact(m: &mut CHashMap<String, i64>)
    ensures
        sent_entries(*final(m)) == sent_entries(*old(m)),
{
    m.shrink_to_fit()
}

/// Relies on `chrono::Utc::now`: the current time in whole seconds since the
/// epoch. Nothing is promised of its value. It panics only where the
/// machine's clock reads a time before 1970, which no caller can rule out.
#[verifier::external_body]
pub(crate) fn now_seconds() -> (r: i64) {
    chrono::Utc::now().timestamp()
}

/// Whole minutes from `from` to `to`, rounded toward zero.
pub open spec fn minutes_between(from: int, to: int) -> int {
    if to >= from {
        (to - from) / 60
    } else {
        -((from - to) / 60)
    }
}

/// A reply sent at `sent` lies outside a cooldown of `window` minutes at `now`.
pub open spec fn is_stale(window: int, sent: int, now: int) -> bool {
    minutes_between(sent, now) > window
}

/// The entries of `m` that are not stale at `now`.
pub open spec fn recent_entries(m: Map<Seq<char>, i64>, window: int, now: int) -> Map<
    Seq<char>,
    i64,
> {
    m.restrict(Set::new(|k: Seq<char>| m.contains_key(k) && !is_stale(window, m[k] as int, now)))
}

/// Whether a reply to `addr` may go out at `now`.
pub open spec fn may_send(m: Map<Seq<char>, i64>, window: int, addr: Seq<char>, now: int) -> bool {
    !m.contains_key(addr) || is_stale(window, m[addr] as int, now)
}

/// The entries after a reply to `addr` is logged at `now`: stale ones are
/// swept out and `addr` maps to `now`.
pub open spec fn after_send(m: Map<Seq<char>, i64>, window: int, addr: Seq<char>, now: i64) -> Map<
    Seq<char>,
    i64,
> {
    recent_entries(m, window, now as int).insert(addr, now)
}

/// An address with no reply logged may be sent one; once a reply is logged at
/// `sent`, the next may go out at `now` exactly when more than `window` whole
/// minutes lie between the two; in particular not at `sent` itself while the
/// window is not negative.
pub proof fn lemma_cooldown(m: Map<Seq<char>, i64>, window: int, addr: Seq<char>, sent: i64, now: i64)
    ensures
        may_send(Map::empty(), window, addr, now as int),
        may_send(after_send(m, window, addr, sent), window, addr, now as int) == is_stale(
            window,
            sent as int,
            now as int,
        ),
        window >= 0 ==> !may_send(after_send(m, window, addr, sent), window, addr, sent as int),
{
}

/// Logging a reply to `addr` at `now` sweeps out every other entry that is stale
/// at `now` and keeps every other entry that is not, unchanged.
pub proof fn lemma_send_sweeps_stale(
    m: Map<Seq<char>, i64>,
    window: int,
    addr: Seq<char>,
    now: i64,
    other: Seq<char>,
)
    requires
        other != addr,
        m.contains_key(other),
    ensures
        is_stale(window, m[other] as int, now as int) ==> !after_send(
            m,
            window,
            addr,
            now,
        ).contains_key(other),
        !is_stale(window, m[other] as int, now as int) ==> after_send(
            m,
            window,
            addr,
            now,
        ).contains_key(other) && after_send(m, window, addr, now)[other] == m[other],
{
}

/// Whether more than `window` whole minutes have passed from `sent` to `now`.
pub fn elapsed_beyond(window: i64, sent: i64, now: i64) -> (r: bool)
    ensures
        r == is_stale(window as int, sent as int, now as int),
{
    let d: i128 = now as i128 - sent as i128;
    let m: i128 = if d >= 0 {
        d / 60
    } else {
        -((-d) / 60)
    };
    m > window as i128
}

/// Whether a reply logged at `sent` still lies within a cooldown of `window`
/// minutes at `now`.
pub fn is_recent(window: i64, sent: i64, now: i64) -> (r: bool)
    ensures
        r == !is_stale(window as int, sent as int, now as int),
{
    !elapsed_beyond(window, sent, now)
}

/// A cooldown length in minutes.
#[derive(Clone, Copy, Debug, PartialEq, Eq)]
pub struct Minutes(pub i64);

/// For each sender address, when it was last sent an automatic reply.
pub struct LastResponseLog {
    time_between_responses: Minutes,
    last_response_date: CHashMap<String, i64>,
}

impl LastResponseLog {
    /// The logged replies: address to time in seconds since the epoch.
    pub closed spec fn entries(&self) -> Map<Seq<char>, i64> {
        sent_entries(self.last_response_date)
    }

    /// The cooldown in minutes.
    pub closed spec fn window(&self) -> int {
        self.time_between_responses.0 as int
    }

    /// The log holds finitely many entries.
    pub open spec fn wf(&self) -> bool {
        self.entries().dom().finite()
    }

    /// An empty log with a cooldown of `time_between_responses`.
    pub fn new(time_between_responses: Minutes) -> (r: Self)
        ensures
            r.entries().dom() == Set::<Seq<char>>::empty(),
            r.window() == time_between_responses.0,
            r.wf(),
    {
        LastResponseLog { time_between_responses, last_response_date: new_sent_map() }
    }

    /// The cooldown this log was made with.
    pub fn time_between_responses(&self) -> (r: Minutes)
        ensures
            r.0 == self.window(),
    {
        self.time_between_responses
    }

    /// When `email` was last sent a reply, if it is logged.
    pub fn last_sent(&self, email: &String) -> (r: Option<i64>)
        ensures
            r == (if self.entries().contains_key(email@) {
                Some(self.entries()[email@])
            } else {
                None
            }),
    {
        sent_get(&self.last_response_date, email)
    }

    /// Whether a reply logged at `sent` is older than the cooldown at `now`.
    pub fn is_too_old(&self, sent: i64, now: i64) -> (r: bool)
        ensures
            r == is_stale(self.window(), sent as int, now as int),
    {
        elapsed_beyond(self.time_between_responses.0, sent, now)
    }

    /// Whether `email` may be sent a reply at `now`: it has none logged, or the
    /// last one is older than the cooldown.
    pub fn can_send_at(&self, email: &String, now: i64) -> (r: bool)
        ensures
            r == may_send(self.entries(), self.window(), email@, now as int),
    {
        match sent_get(&self.last_response_date, email) {
            Some(v) => self.is_too_old(v, now),
            None => true,
        }
    }

    /// As `can_send_at`, at the current time, which is returned beside the answer.
    pub fn can_send(&self, email: &String) -> (r: (bool, i64))
        ensures
            r.0 == may_send(self.entries(), self.window(), email@, r.1 as int),
    {
        let now = now_seconds();
        (self.can_send_at(email, now), now)
    }

    /// Drops every entry that is older than the cooldown at `now`, then
    /// rebuilds the table around the entries that are left.
    pub fn clear_old_at(&mut self, now: i64)
        ensures
            final(self).entries() == recent_entries(old(self).entries(), old(self).window(), now as int),
            final(self).window() == old(self).window(),
            old(self).wf() ==> final(self).wf(),
    {
        sent_retain_recent(&mut self.last_response_date, self.time_between_responses.0, now);
        sent_compact(&mut self.last_response_date);
        proof {
            let o = old(self).entries();
            let f = self.entries();
            if o.dom().finite() {
                assert(f.dom() =~= o.dom().filter(|k: Seq<char>| !is_stale(self.window(), o[k] as int, now as int)));
            }
        }
    }

    /// Sweeps out stale entries, then logs a reply to `email` at `now`.
    pub fn log_send_at(&mut self, email: &String, now: i64)
        ensures
            final(self).entries() == after_send(old(self).entries(), old(self).window(), email@, now),
            final(self).window() == old(self).window(),
            old(self).wf() ==> final(self).wf(),
    {
        self.clear_old_at(now);
        sent_insert(&mut self.last_response_date, email.clone(), now);
    }

    /// As `log_send_at`, at the current time, which is returned.
    pub fn log_send(&mut self, email: &String) -> (now: i64)
        ensures
            final(self).entries() == after_send(old(self).entries(), old(self).window(), email@, now),
            final(self).window() == old(self).window(),
            old(self).wf() ==> final(self).wf(),
    {
        let now = now_seconds();
        self.log_send_at(email, now);
        now
    }
}

} // verus!
