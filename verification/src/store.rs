//! Message store: per-session sequence counters and a window of previously
//! sent raw messages, kept for resend requests.
//!
//! The store interface is the `MessageStore` trait; `MemoryStore` is the
//! in-memory reference implementation, backed by a concurrent map so that
//! resend readers and the send path do not contend on one coarse lock.

use vstd::prelude::*;

use crate::session::SessionID;

verus! {

/// Instant in time, as milliseconds since the Unix epoch.
#[derive(Clone, Copy, Debug, PartialEq, Eq, Structural)]
pub struct Timestamp {
    pub millis: i64,
}

/// Recoverable error from a message-store operation.
#[derive(Debug)]
pub enum StoreError {
    /// A next sequence number below one was requested.
    SeqNumOutOfRange,
    /// The backing medium of a durable store failed; the text describes the
    /// failure. The in-memory store never returns it.
    Backend(String),
}

#[verifier::external_type_specification]
#[verifier::external_body]
#[verifier::reject_recursive_types(K)]
#[verifier::reject_recursive_types(V)]
#[verifier::reject_recursive_types(S)]
pub struct ExDashMap<K, V, S>(dashmap::DashMap<K, V, S>);

/// The entries held by a concurrent map of raw messages: stored message
/// bytes by sequence number.
pub uninterp spec fn dash_map_contents(m: dashmap::DashMap<isize, Vec<u8>>) -> Map<int, Seq<u8>>;

/// Relies on dashmap::DashMap::new; nothing is assumed of the fresh map's
/// contents, which every caller scrubs with `dash_map_clear` before use.
#[verifier::external_body]
fn dash_map_new() -> (created: dashmap::DashMap<isize, Vec<u8>>) {
    dashmap::DashMap::new()
}

/// Relies on dashmap::DashMap::insert: maps the key to the value, replacing
/// any prior entry under that key and leaving the rest unchanged.
#[verifier::external_body]
fn dash_map_insert(m: &mut dashmap::DashMap<isize, Vec<u8>>, key: isize, value: Vec<u8>)
    ensures
        dash_map_contents(*final(m)) == dash_map_contents(*old(m)).insert(key as int, value@),
{
    m.insert(key, value);
}

/// Relies on dashmap::DashMap::get: returns a copy of the value stored under
/// the key, or nothing when the key has no entry.
#[verifier::external_body]
fn dash_map_get(m: &dashmap::DashMap<isize, Vec<u8>>, key: isize) -> (r: Option<Vec<u8>>)
    ensures
        match r {
            Some(v) => dash_map_contents(*m).contains_key(key as int) && v@ == dash_map_contents(
                *m,
            )[key as int],
            None => !dash_map_contents(*m).contains_key(key as int),
        },
{
    m.get(&key).map(|entry| entry.to_vec())
}

/// Relies on dashmap::DashMap::clear: removes every entry.
#[verifier::external_body]
fn dash_map_clear(m: &mut dashmap::DashMap<isize, Vec<u8>>)
    ensures
        dash_map_contents(*final(m)) == dash_map_contents(*old(m)).restrict(Set::empty()),
{
    m.clear();
}

/// Relies on std::time::SystemTime::now, read as milliseconds since the
/// Unix epoch; a clock before the epoch reads as a negative count, so the
/// read is total and never ends the process. Nothing is assumed of the
/// clock's value.
#[verifier::external_body]
fn utc_now() -> (t: Timestamp) {
    let millis = match std::time::SystemTime::now().duration_since(std::time::UNIX_EPOCH) {
        Ok(since) => since.as_millis() as i64,
        Err(before) => (before.duration().as_millis() as i64).wrapping_neg(),
    };
    Timestamp { millis }
}

/// The raw messages stored under the sequence numbers `begin..=end`, in
/// ascending sequence order; numbers without a stored message are skipped.
pub open spec fn messages_in_range(stored: Map<int, Seq<u8>>, begin: int, end: int) -> Seq<
    Seq<u8>,
>
    decreases end - begin + 1,
{
    if begin > end {
        Seq::empty()
    } else {
        messages_in_range(stored, begin, end - 1) + (if stored.contains_key(end) {
            seq![stored[end]]
        } else {
            Seq::<Seq<u8>>::empty()
        })
    }
}

/// The counter value after `k` single increments starting from `s`.
pub open spec fn seq_num_after_incrs(s: int, k: nat) -> int
    decreases k,
{
    if k == 0 {
        s
    } else {
        seq_num_after_incrs(s, (k - 1) as nat) + 1
    }
}

/// Law: sequence monotonicity. From a freshly reset store, whose counter is
/// zero, `k` calls of `incr_next_sender_msg_seq_num` (each of which adds
/// exactly one, by its contract) leave `next_sender_msg_seq_num` reporting
/// exactly `k + 1`.
pub proof fn lemma_seq_num_monotonic(k: nat)
    ensures
        seq_num_after_incrs(0, k) + 1 == k + 1,
    decreases k,
{
    if k > 0 {
        lemma_seq_num_monotonic((k - 1) as nat);
    }
}

/// Law: `set_next_sender_msg_seq_num(n)` stores `n - 1`, so an immediately
/// following `next_sender_msg_seq_num()` reports exactly `n`, for any
/// `n >= 1`.
pub proof fn lemma_set_then_next<S: MessageStore>(s: S, n: isize)
    requires
        s.inv(),
        n >= 1,
        s.sender_seq() == n - 1,
    ensures
        s.sender_seq() + 1 == n,
{
}

/// Law: after saving a message under `seq`, a resend query for exactly
/// `seq..=seq` returns that one message and nothing else; by the contract of
/// `save_message_and_incr_next_sender_msg_seq_num` the sender counter has
/// advanced by exactly one at the same time.
pub proof fn lemma_save_then_get_single(stored: Map<int, Seq<u8>>, seq: int, msg: Seq<u8>)
    ensures
        messages_in_range(stored.insert(seq, msg), seq, seq) == seq![msg],
{
    let with_msg = stored.insert(seq, msg);
    assert(with_msg.contains_key(seq));
    assert(messages_in_range(with_msg, seq, seq - 1) =~= Seq::<Seq<u8>>::empty());
    assert(messages_in_range(with_msg, seq, seq) =~= seq![msg]);
}

/// Law: a resend query returns at most one message per requested sequence
/// number, so its count never exceeds `end - begin + 1`.
pub proof fn lemma_get_messages_count(stored: Map<int, Seq<u8>>, begin: int, end: int)
    requires
        begin <= end + 1,
    ensures
        messages_in_range(stored, begin, end).len() <= end - begin + 1,
    decreases end - begin + 1,
{
    if begin <= end {
        lemma_get_messages_count(stored, begin, end - 1);
    }
}

/// The message `msg` is stored under some sequence number in
/// `begin..=end`.
pub open spec fn from_stored_range(stored: Map<int, Seq<u8>>, begin: int, end: int, msg: Seq<
    u8,
>) -> bool {
    exists|k: int| begin <= k <= end && stored.contains_key(k) && msg == stored[k]
}

/// Law: a resend query returns only the saved subset — every message it
/// returns was stored under some sequence number inside the queried range.
pub proof fn lemma_get_messages_only_saved(stored: Map<int, Seq<u8>>, begin: int, end: int)
    ensures
        forall|i: int|
            0 <= i < messages_in_range(stored, begin, end).len() ==> from_stored_range(
                stored,
                begin,
                end,
                #[trigger] messages_in_range(stored, begin, end)[i],
            ),
    decreases end - begin + 1,
{
    if begin <= end {
        lemma_get_messages_only_saved(stored, begin, end - 1);
        let whole = messages_in_range(stored, begin, end);
        let prefix = messages_in_range(stored, begin, end - 1);
        assert forall|i: int| 0 <= i < whole.len() implies from_stored_range(
            stored,
            begin,
            end,
            #[trigger] whole[i],
        ) by {
            if i < prefix.len() {
                assert(whole[i] == prefix[i]);
                assert(from_stored_range(stored, begin, end - 1, prefix[i]));
                let k = choose|k: int|
                    begin <= k <= end - 1 && stored.contains_key(k) && prefix[i] == stored[k];
                assert(begin <= k <= end && stored.contains_key(k) && whole[i] == stored[k]);
            } else {
                assert(stored.contains_key(end));
                assert(whole[i] == stored[end]);
                assert(begin <= end <= end && stored.contains_key(end) && whole[i]
                    == stored[end]);
            }
        }
    }
}

/// Number of sequence numbers in `begin..=end` that hold a stored message.
pub open spec fn saved_count(stored: Map<int, Seq<u8>>, begin: int, end: int) -> int
    decreases end - begin + 1,
{
    if begin > end {
        0
    } else {
        saved_count(stored, begin, end - 1) + (if stored.contains_key(end) {
            1int
        } else {
            0int
        })
    }
}

/// Law: a resend query returns one message per saved sequence number in the
/// queried range — none dropped, none duplicated.
pub proof fn lemma_get_messages_exactly_once(stored: Map<int, Seq<u8>>, begin: int, end: int)
    ensures
        messages_in_range(stored, begin, end).len() == saved_count(stored, begin, end),
    decreases end - begin + 1,
{
    if begin <= end {
        lemma_get_messages_exactly_once(stored, begin, end - 1);
    }
}

/// Law: saves under distinct sequence numbers commute — whichever order two
/// such writes land in, the stored contents end up the same, so a later
/// resend query cannot tell the orders apart.
pub proof fn lemma_distinct_saves_commute(
    stored: Map<int, Seq<u8>>,
    seq_a: int,
    msg_a: Seq<u8>,
    seq_b: int,
    msg_b: Seq<u8>,
)
    requires
        seq_a != seq_b,
    ensures
        stored.insert(seq_a, msg_a).insert(seq_b, msg_b) == stored.insert(seq_b, msg_b).insert(
            seq_a,
            msg_a,
        ),
{
    assert(stored.insert(seq_a, msg_a).insert(seq_b, msg_b) =~= stored.insert(
        seq_b,
        msg_b,
    ).insert(seq_a, msg_a));
}

/// Law: after a reset the store holds nothing, so a resend query over any
/// range — any prior range included — comes back empty.
pub proof fn lemma_reset_clears_messages(begin: int, end: int)
    ensures
        messages_in_range(Map::empty(), begin, end) == Seq::<Seq<u8>>::empty(),
    decreases end - begin + 1,
{
    if begin <= end {
        lemma_reset_clears_messages(begin, end - 1);
        assert(!Map::<int, Seq<u8>>::empty().contains_key(end));
        assert(messages_in_range(Map::empty(), begin, end) =~= Seq::<Seq<u8>>::empty());
    }
}

/// Records and serves sequence numbers and previously sent messages for one
/// session. Implementations may be in-memory or durable; the contract is the
/// same for both.
pub trait MessageStore: Sized {
    /// Sequence number most recently assigned by this side; zero when fresh.
    spec fn sender_seq(&self) -> int;

    /// Sequence number most recently accepted from the peer; zero when fresh.
    spec fn target_seq(&self) -> int;

    /// Stored raw messages by sequence number.
    spec fn stored(&self) -> Map<int, Seq<u8>>;

    /// Creation or last-reset instant, milliseconds since the Unix epoch.
    spec fn created(&self) -> int;

    /// Well-formedness: counters never go below zero.
    spec fn inv(&self) -> bool;

    /// Reports the next sequence number this side will assign, without
    /// changing anything.
    fn next_sender_msg_seq_num(&self) -> (r: isize)
        requires
            self.inv(),
            self.sender_seq() < isize::MAX as int,
        ensures
            r as int == self.sender_seq() + 1,
    ;

    /// Reports the next sequence number expected from the peer, without
    /// changing anything.
    fn next_target_msg_seq_num(&self) -> (r: isize)
        requires
            self.inv(),
            self.target_seq() < isize::MAX as int,
        ensures
            r as int == self.target_seq() + 1,
    ;

    /// Advances the sender counter by exactly one; on error nothing changes.
    fn incr_next_sender_msg_seq_num(&mut self) -> (r: Result<(), StoreError>)
        requires
            old(self).inv(),
            old(self).sender_seq() < isize::MAX as int,
        ensures
            final(self).inv(),
            r is Ok ==> final(self).sender_seq() == old(self).sender_seq() + 1
                && final(self).target_seq() == old(self).target_seq() && final(self).stored()
                == old(self).stored() && final(self).created() == old(self).created(),
            r is Err ==> *final(self) == *old(self),
    ;

    /// Advances the target counter by exactly one; on error nothing changes.
    fn incr_next_target_msg_seq_num(&mut self) -> (r: Result<(), StoreError>)
        requires
            old(self).inv(),
            old(self).target_seq() < isize::MAX as int,
        ensures
            final(self).inv(),
            r is Ok ==> final(self).target_seq() == old(self).target_seq() + 1
                && final(self).sender_seq() == old(self).sender_seq() && final(self).stored()
                == old(self).stored() && final(self).created() == old(self).created(),
            r is Err ==> *final(self) == *old(self),
    ;

    /// Forces the counter so that the next sender sequence number reported is
    /// `next_seq_num`. A number below one is rejected before anything is
    /// mutated; on error nothing changes.
    fn set_next_sender_msg_seq_num(&mut self, next_seq_num: isize) -> (r: Result<(), StoreError>)
        requires
            old(self).inv(),
        ensures
            final(self).inv(),
            next_seq_num < 1 ==> r is Err,
            r is Ok ==> next_seq_num >= 1 && final(self).sender_seq() == next_seq_num - 1
                && final(self).target_seq() == old(self).target_seq() && final(self).stored()
                == old(self).stored() && final(self).created() == old(self).created(),
            r is Err ==> *final(self) == *old(self),
    ;

    /// Forces the counter so that the next target sequence number reported is
    /// `next_seq_num`. A number below one is rejected before anything is
    /// mutated; on error nothing changes.
    fn set_next_target_msg_seq_num(&mut self, next_seq_num: isize) -> (r: Result<(), StoreError>)
        requires
            old(self).inv(),
        ensures
            final(self).inv(),
            next_seq_num < 1 ==> r is Err,
            r is Ok ==> next_seq_num >= 1 && final(self).target_seq() == next_seq_num - 1
                && final(self).sender_seq() == old(self).sender_seq() && final(self).stored()
                == old(self).stored() && final(self).created() == old(self).created(),
            r is Err ==> *final(self) == *old(self),
    ;

    /// Reports the instant recorded at construction or at the last reset.
    fn creation_time(&self) -> (r: Timestamp)
        requires
            self.inv(),
        ensures
            r.millis as int == self.created(),
    ;

    /// Records raw outgoing message bytes under a sequence number,
    /// overwriting any prior entry there; on error nothing changes.
    fn save_message(&mut self, seq_num: isize, msg: Vec<u8>) -> (r: Result<(), StoreError>)
        requires
            old(self).inv(),
        ensures
            final(self).inv(),
            r is Ok ==> final(self).stored() == old(self).stored().insert(seq_num as int, msg@)
                && final(self).sender_seq() == old(self).sender_seq() && final(self).target_seq()
                == old(self).target_seq() && final(self).created() == old(self).created(),
            r is Err ==> *final(self) == *old(self),
    ;

    /// Records the message and advances the sender counter, atomically: an
    /// error leaves neither effect behind.
    fn save_message_and_incr_next_sender_msg_seq_num(&mut self, seq_num: isize, msg: Vec<u8>) -> (r:
        Result<(), StoreError>)
        requires
            old(self).inv(),
            old(self).sender_seq() < isize::MAX as int,
        ensures
            final(self).inv(),
            r is Ok ==> final(self).stored() == old(self).stored().insert(seq_num as int, msg@)
                && final(self).sender_seq() == old(self).sender_seq() + 1
                && final(self).target_seq() == old(self).target_seq()
                && final(self).created() == old(self).created(),
            r is Err ==> *final(self) == *old(self),
    ;

    /// Returns the stored messages with sequence numbers in
    /// `begin_seq_num..=end_seq_num`, in ascending sequence order; numbers
    /// with no stored message are skipped.
    fn get_messages(&self, begin_seq_num: isize, end_seq_num: isize) -> (r: Result<
        Vec<Vec<u8>>,
        StoreError,
    >)
        requires
            self.inv(),
        ensures
            r matches Ok(msgs) ==> msgs@.map_values(|m: Vec<u8>| m@) == messages_in_range(
                self.stored(),
                begin_seq_num as int,
                end_seq_num as int,
            ),
    ;

    /// Reloads counters and messages from an externally mutable backing
    /// medium; a no-op for a purely in-memory store.
    fn refresh(&self) -> (r: Result<(), StoreError>)
        requires
            self.inv(),
    ;

    /// Zeroes both counters (the next values become one), clears all stored
    /// messages and stamps a fresh creation time.
    fn reset(&mut self) -> (r: Result<(), StoreError>)
        requires
            old(self).inv(),
        ensures
            final(self).inv(),
            r is Ok ==> final(self).sender_seq() == 0 && final(self).target_seq() == 0
                && final(self).stored() == Map::<int, Seq<u8>>::empty(),
            r is Err ==> *final(self) == *old(self),
    ;

    /// Releases the backing medium; a no-op for a purely in-memory store.
    fn close(&self) -> (r: Result<(), StoreError>)
        requires
            self.inv(),
    ;
}

/// In-memory reference implementation of `MessageStore`.
pub struct MemoryStore {
    pub sender_msg_seq_num: isize,
    pub target_msg_seq_num: isize,
    pub creation_time: Timestamp,
    pub message_map: dashmap::DashMap<isize, Vec<u8>>,
}

impl Default for MemoryStore {
    /// An all-zero store; `MemoryStoreFactory::create` resets it before use.
    fn default() -> (s: MemoryStore)
        ensures
            s.inv(),
            s.sender_seq() == 0,
            s.target_seq() == 0,
            s.stored() == Map::<int, Seq<u8>>::empty(),
            s.created() == 0,
    {
        let mut message_map = dash_map_new();
        dash_map_clear(&mut message_map);
        proof {
            assert(dash_map_contents(message_map) =~= Map::empty());
        }
        MemoryStore {
            sender_msg_seq_num: 0,
            target_msg_seq_num: 0,
            creation_time: Timestamp { millis: 0 },
            message_map,
        }
    }
}

impl MessageStore for MemoryStore {
    open spec fn sender_seq(&self) -> int {
        self.sender_msg_seq_num as int
    }

    open spec fn target_seq(&self) -> int {
        self.target_msg_seq_num as int
    }

    open spec fn stored(&self) -> Map<int, Seq<u8>> {
        dash_map_contents(self.message_map)
    }

    open spec fn created(&self) -> int {
        self.creation_time.millis as int
    }

    open spec fn inv(&self) -> bool {
        self.sender_msg_seq_num >= 0 && self.target_msg_seq_num >= 0
    }

    fn next_sender_msg_seq_num(&self) -> (r: isize) {
        self.sender_msg_seq_num + 1
    }

    fn next_target_msg_seq_num(&self) -> (r: isize) {
        self.target_msg_seq_num + 1
    }

    fn incr_next_sender_msg_seq_num(&mut self) -> (r: Result<(), StoreError>)
        ensures
            r is Ok,
    {
        self.sender_msg_seq_num = self.sender_msg_seq_num + 1;
        Ok(())
    }

    fn incr_next_target_msg_seq_num(&mut self) -> (r: Result<(), StoreError>)
        ensures
            r is Ok,
    {
        self.target_msg_seq_num = self.target_msg_seq_num + 1;
        Ok(())
    }

    fn set_next_sender_msg_seq_num(&mut self, next_seq_num: isize) -> (r: Result<(), StoreError>)
        ensures
            next_seq_num >= 1 ==> r is Ok,
    {
        if next_seq_num < 1 {
            return Err(StoreError::SeqNumOutOfRange);
        }
        self.sender_msg_seq_num = next_seq_num - 1;
        Ok(())
    }

    fn set_next_target_msg_seq_num(&mut self, next_seq_num: isize) -> (r: Result<(), StoreError>)
        ensures
            next_seq_num >= 1 ==> r is Ok,
    {
        if next_seq_num < 1 {
            return Err(StoreError::SeqNumOutOfRange);
        }
        self.target_msg_seq_num = next_seq_num - 1;
        Ok(())
    }

    fn creation_time(&self) -> (r: Timestamp) {
        self.creation_time
    }

    fn save_message(&mut self, seq_num: isize, msg: Vec<u8>) -> (r: Result<(), StoreError>)
        ensures
            r is Ok,
    {
        dash_map_insert(&mut self.message_map, seq_num, msg);
        Ok(())
    }

    fn save_message_and_incr_next_sender_msg_seq_num(&mut self, seq_num: isize, msg: Vec<u8>) -> (r:
        Result<(), StoreError>)
        ensures
            r is Ok,
    {
        let save_result = self.save_message(seq_num, msg);
        match save_result {
            Ok(_) => self.incr_next_sender_msg_seq_num(),
            Err(e) => Err(e),
        }
    }

    fn get_messages(&self, begin_seq_num: isize, end_seq_num: isize) -> (r: Result<
        Vec<Vec<u8>>,
        StoreError,
    >)
        ensures
            r is Ok,
    {
        let mut msgs: Vec<Vec<u8>> = Vec::new();
        if begin_seq_num <= end_seq_num {
            let mut seq_num: isize = begin_seq_num;
            loop
                invariant_except_break
                    begin_seq_num <= seq_num <= end_seq_num,
                    self.inv(),
                    msgs@.map_values(|m: Vec<u8>| m@) == messages_in_range(
                        self.stored(),
                        begin_seq_num as int,
                        seq_num - 1,
                    ),
                ensures
                    msgs@.map_values(|m: Vec<u8>| m@) == messages_in_range(
                        self.stored(),
                        begin_seq_num as int,
                        end_seq_num as int,
                    ),
                decreases end_seq_num - seq_num,
            {
                let ghost before = msgs@.map_values(|m: Vec<u8>| m@);
                let entry = dash_map_get(&self.message_map, seq_num);
                match entry {
                    Some(v) => {
                        proof {
                            assert(msgs@.push(v).map_values(|m: Vec<u8>| m@) =~= before.push(v@));
                            assert(before.push(v@) =~= messages_in_range(
                                self.stored(),
                                begin_seq_num as int,
                                seq_num as int,
                            ));
                        }
                        msgs.push(v);
                    },
                    None => {
                        proof {
                            assert(before =~= messages_in_range(
                                self.stored(),
                                begin_seq_num as int,
                                seq_num as int,
                            ));
                        }
                    },
                }
                if seq_num == end_seq_num {
                    break ;
                }
                seq_num = seq_num + 1;
            }
        }
        Ok(msgs)
    }

    fn refresh(&self) -> (r: Result<(), StoreError>)
        ensures
            r is Ok,
    {
        Ok(())
    }

    fn reset(&mut self) -> (r: Result<(), StoreError>)
        ensures
            r is Ok,
    {
        self.sender_msg_seq_num = 0;
        self.target_msg_seq_num = 0;
        self.creation_time = utc_now();
        dash_map_clear(&mut self.message_map);
        Ok(())
    }

    fn close(&self) -> (r: Result<(), StoreError>)
        ensures
            r is Ok,
    {
        Ok(())
    }
}

/// Creates the message store for a session identity.
pub trait MessageStoreFactory: Sized {
    /// The store implementation this factory produces.
    type Store: MessageStore;

    /// Returns a freshly reset store scoped to `session_id`: counters zero
    /// and no stored messages.
    fn create(&self, session_id: SessionID) -> (r: Result<Self::Store, StoreError>)
        ensures
            r matches Ok(s) ==> s.inv() && s.sender_seq() == 0 && s.target_seq() == 0 && s.stored()
                == Map::<int, Seq<u8>>::empty(),
    ;
}

/// Factory for in-memory message stores.
pub struct MemoryStoreFactory;

impl MessageStoreFactory for MemoryStoreFactory {
    type Store = MemoryStore;

    fn create(&self, _session_id: SessionID) -> (r: Result<MemoryStore, StoreError>)
        ensures
            r is Ok,
    {
        let mut m = MemoryStore::default();
        let reset_result = m.reset();
        match reset_result {
            Ok(_) => Ok(m),
            Err(e) => Err(e),
        }
    }
}

impl MemoryStoreFactory {
    /// Returns a factory that creates in-memory message stores.
    pub fn new() -> (f: MemoryStoreFactory) {
        MemoryStoreFactory
    }
}

} // verus!
