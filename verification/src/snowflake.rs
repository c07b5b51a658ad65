//! Globally unique, time-ordered 64-bit identifiers.
//!
//! An id packs, from the high bits down: a sign bit (always zero), a 41-bit
//! millisecond timestamp relative to a configurable epoch, a 5-bit datacenter
//! id, a 5-bit machine id, and a 12-bit per-millisecond sequence number.
//! One generator hands out at most 4096 ids per millisecond; contention is
//! resolved by bounded compare-and-swap retries on a single packed word, not
//! by locks.

use vstd::prelude::*;
use std::sync::atomic::{AtomicI64, Ordering};
use std::time::SystemTime;

verus! {

/// Largest admissible timestamp: the timestamp field is 41 bits wide.
pub const MAX_TIMESTAMP: i64 = 0x200_0000_0000;

/// Mask that keeps the low 41 bits of a millisecond count.
pub const TIMESTAMP_MASK: i64 = 0x1FF_FFFF_FFFF;

/// The sequence field is 12 bits wide: at most 4096 ids per millisecond.
pub const MAX_SEQUENCE: i64 = 4095;

/// The value of an id as a function of its four fields: timestamp shifted
/// left 22, datacenter id shifted left 17, machine id shifted left 12,
/// sequence in the low 12 bits.
pub open spec fn id_spec(timestamp: int, datacenter_id: int, machine_id: int, sequence: int) -> int {
    timestamp * 0x40_0000 + datacenter_id * 0x2_0000 + machine_id * 0x1000 + sequence
}

/// The four fields of an id are each within their bit width.
pub open spec fn id_fields_valid(timestamp: int, datacenter_id: int, machine_id: int, sequence: int) -> bool {
    &&& 0 <= timestamp < MAX_TIMESTAMP
    &&& 0 <= datacenter_id < 32
    &&& 0 <= machine_id < 32
    &&& 0 <= sequence < 4096
}

/// An id that a generator configured with the given partition pair could
/// have produced.
pub open spec fn well_formed_id(id: int, datacenter_id: int, machine_id: int) -> bool {
    exists|timestamp: int, sequence: int|
        id_fields_valid(timestamp, datacenter_id, machine_id, sequence)
            && id == #[trigger] id_spec(timestamp, datacenter_id, machine_id, sequence)
}

#[verifier::external_type_specification]
#[verifier::external_body]
pub struct ExSystemTime(SystemTime);

/// Relies on `AtomicI64::new`: wraps the given initial word.
#[verifier::external_body]
fn atomic_word(v: i64) -> AtomicI64 {
    AtomicI64::new(v)
}

/// Relies on `AtomicI64::store`: unconditionally publishes the given word.
#[verifier::external_body]
fn atomic_store(a: &AtomicI64, value: i64) {
    a.store(value, Ordering::Relaxed);
}

/// Relies on `AtomicI64::load`: another thread may store at any moment, so
/// nothing is promised of the value read.
#[verifier::external_body]
fn atomic_load(a: &AtomicI64) -> i64 {
    a.load(Ordering::Relaxed)
}

/// Relies on `AtomicI64::compare_exchange`: on success the returned previous
/// value is guaranteed by its documentation to equal the expected `current`.
#[verifier::external_body]
fn atomic_compare_exchange(a: &AtomicI64, current: i64, value: i64) -> (r: Result<i64, i64>)
    ensures
        r matches Ok(prev) ==> prev == current,
{
    a.compare_exchange(current, value, Ordering::Relaxed, Ordering::Relaxed)
}

/// Relies on `SystemTime` being `Copy`: hands back the same instant.
#[verifier::external_body]
fn copy_time(t: &SystemTime) -> (r: SystemTime)
    ensures
        r == *t,
{
    *t
}

/// Relies on `std::time::UNIX_EPOCH`: the default epoch.
#[verifier::external_body]
fn unix_epoch() -> SystemTime {
    std::time::UNIX_EPOCH
}

/// Relies on `std::hint::spin_loop`: a scheduling hint with no effect on any
/// value.
#[verifier::external_body]
fn spin_loop_hint() {
    std::hint::spin_loop();
}

/// Get the latest milliseconds of the clock: the whole milliseconds from
/// `epoch` to now, or 0 while the clock reads earlier than `epoch` (a
/// future epoch, or a clock set back past it) — the allocator cannot fail,
/// so the error arm of `duration_since` is absorbed here rather than
/// surfaced as a panic.
///
/// Relies on `SystemTime::now` and `duration_since(epoch)`: the wall clock
/// is ambient, so nothing is promised of the value.
#[verifier::external_body]
pub fn current_time_in_milli(epoch: SystemTime) -> i64 {
    match SystemTime::now().duration_since(epoch) {
        Ok(elapsed) => elapsed.as_millis() as i64,
        Err(_) => 0,
    }
}

/// Generates unique, time-ordered ids from one atomic word that packs
/// `(last timestamp << 12) | sequence`.
pub struct NumericalUniqueIdGenerator {
    /// Epoch used by the snowflake algorithm.
    epoch: SystemTime,
    /// The partition pair is fixed once the system is up and running: two
    /// generators with distinct pairs can never collide.
    pub datacenter_id: i32,
    pub machine_id: i32,
    /// Packed word: 41 bits of last-issued timestamp, 12 bits of sequence.
    sequence_num: AtomicI64,
}

impl NumericalUniqueIdGenerator {
    /// The configured datacenter id.
    pub closed spec fn spec_datacenter_id(&self) -> i32 {
        self.datacenter_id
    }

    /// The configured machine id.
    pub closed spec fn spec_machine_id(&self) -> i32 {
        self.machine_id
    }

    /// Both partition ids fit their 5-bit fields.
    pub closed spec fn wf(&self) -> bool {
        &&& 0 <= self.datacenter_id < 32
        &&& 0 <= self.machine_id < 32
    }

    /// Constructs a generator using the UNIX epoch.
    pub fn new(datacenter_id: i32, machine_id: i32) -> (r: NumericalUniqueIdGenerator)
        requires
            0 <= datacenter_id < 32,
            0 <= machine_id < 32,
        ensures
            r.wf(),
            r.spec_datacenter_id() == datacenter_id,
            r.spec_machine_id() == machine_id,
    {
        Self::with_epoch(datacenter_id, machine_id, unix_epoch())
    }

    /// Constructs a generator using the specified epoch.
    pub fn with_epoch(datacenter_id: i32, machine_id: i32, epoch: SystemTime) -> (r: NumericalUniqueIdGenerator)
        requires
            0 <= datacenter_id < 32,
            0 <= machine_id < 32,
        ensures
            r.wf(),
            r.spec_datacenter_id() == datacenter_id,
            r.spec_machine_id() == machine_id,
    {
        let now = current_time_in_milli(copy_time(&epoch));
        let timestamp = now & TIMESTAMP_MASK;
        assert(0 <= now & 0x1FF_FFFF_FFFFi64 < 0x200_0000_0000i64) by (bit_vector);
        NumericalUniqueIdGenerator {
            epoch,
            datacenter_id,
            machine_id,
            sequence_num: atomic_word(timestamp * 4096),
        }
    }

    /// Within 64 bits: the sign bit stays clear, the timestamp takes the next
    /// 41 bits, the datacenter id the next 5, the machine id the next 5, and
    /// the sequence number comes last.
    fn get_snowflake(&self, seq_num: i16, timestamp: i64) -> (r: i64)
        requires
            self.wf(),
            0 <= timestamp < MAX_TIMESTAMP,
            0 <= seq_num < 4096,
        ensures
            r == id_spec(timestamp as int, self.spec_datacenter_id() as int, self.spec_machine_id() as int, seq_num as int),
    {
        timestamp * 0x40_0000 + (self.datacenter_id as i64) * 0x2_0000 + (self.machine_id as i64) * 0x1000
            + (seq_num as i64)
    }

    /// Produces the next id: reads the wall clock, spins while the stored
    /// timestamp is ahead of it (the clock moved backward), lets
    /// [`advance_word`] decide the next packed word — which strictly exceeds
    /// the word it read, the premise of [`lemma_word_advances`] — and
    /// publishes it by compare-and-swap.
    ///
    /// Progress under contention is bounded by clock advancement, about one
    /// millisecond in the worst case, so the retry budget below can never run
    /// out; if it somehow did, the word is published unconditionally.
    pub fn generate(&self) -> (r: i64)
        requires
            self.wf(),
        ensures
            well_formed_id(r as int, self.spec_datacenter_id() as int, self.spec_machine_id() as int),
            r >= 0,
    {
        let mut result: i64 = 0;
        let mut done = false;
        let mut fuel: u64 = 0xFFFF_FFFF_FFFF_FFFF;
        while !done && fuel > 0
            invariant
                self.wf(),
                done ==> well_formed_id(result as int, self.spec_datacenter_id() as int, self.spec_machine_id() as int)
                    && result >= 0,
            decreases fuel,
        {
            fuel = fuel - 1;
            let now = current_time_in_milli(copy_time(&self.epoch));
            let timestamp = now & TIMESTAMP_MASK;
            assert(0 <= now & 0x1FF_FFFF_FFFFi64 < 0x200_0000_0000i64) by (bit_vector);
            let current = atomic_load(&self.sequence_num);

            match advance_word(current, timestamp, copy_time(&self.epoch)) {
                None => {
                    spin_loop_hint();
                }
                Some((new_ts, new_seq)) => {
                    let new_word = new_ts * 4096 + new_seq;
                    match atomic_compare_exchange(&self.sequence_num, current, new_word) {
                        Ok(_) => {
                            let id = self.get_snowflake(new_seq as i16, new_ts);
                            assert(id_fields_valid(new_ts as int, self.spec_datacenter_id() as int, self.spec_machine_id() as int, new_seq as int));
                            result = id;
                            done = true;
                        }
                        Err(_) => {
                            spin_loop_hint();
                        }
                    }
                }
            }
        }
        if !done {
            let now = current_time_in_milli(copy_time(&self.epoch));
            let timestamp = now & TIMESTAMP_MASK;
            assert(0 <= now & 0x1FF_FFFF_FFFFi64 < 0x200_0000_0000i64) by (bit_vector);
            atomic_store(&self.sequence_num, timestamp * 4096);
            result = self.get_snowflake(0, timestamp);
            assert(id_fields_valid(timestamp as int, self.spec_datacenter_id() as int, self.spec_machine_id() as int, 0));
        }
        result
    }
}

/// Decides the next packed word from a masked clock reading and the word
/// read from the shared atomic. `None` means the stored timestamp is ahead
/// of the clock, so the caller must wait. Any published word strictly
/// exceeds the word it read (except at the unreachable wrap of the 41-bit
/// timestamp field): same millisecond — sequence incremented; sequence
/// overflow — the next millisecond raced for, sequence reset; clock ahead —
/// the new millisecond, sequence reset. This is what makes one generator's
/// words, and with them its ids, strictly increase.
fn advance_word(current: i64, timestamp: i64, epoch: SystemTime) -> (r: Option<(i64, i64)>)
    requires
        0 <= timestamp < MAX_TIMESTAMP,
    ensures
        r is None <==> (current >> 12) > timestamp,
        r matches Some(p) ==> ({
            &&& 0 <= p.0 < MAX_TIMESTAMP
            &&& 0 <= p.1 < 4096
            &&& timestamp < TIMESTAMP_MASK ==> p.0 * 4096 + p.1 > current
        }),
{
    let last_ts = current >> 12;
    let last_seq = current & 0xFFF;
    assert(0 <= current & 0xFFFi64 < 4096) by (bit_vector);

    if last_ts > timestamp {
        return None;
    }

    if last_ts == timestamp {
        let bumped = last_seq + 1;
        let next_seq = bumped & 0xFFF;
        assert(0 <= bumped & 0xFFFi64 < 4096) by (bit_vector);
        if next_seq == 0 {
            let raced = race_next_milli(timestamp, epoch);
            proof {
                if timestamp < TIMESTAMP_MASK {
                    lemma_word_advances(current, raced, 0);
                }
            }
            Some((raced, 0i64))
        } else {
            proof {
                assert(next_seq == (current & 0xFFF) + 1) by (bit_vector)
                    requires
                        last_seq == current & 0xFFF,
                        bumped == last_seq + 1,
                        next_seq == bumped & 0xFFF,
                        next_seq != 0,
                ;
                lemma_word_advances(current, timestamp, next_seq);
            }
            Some((timestamp, next_seq))
        }
    } else {
        proof {
            lemma_word_advances(current, timestamp, 0);
        }
        Some((timestamp, 0i64))
    }
}

/// Busy-waits until the clock moves strictly past `timestamp`, so that a
/// generator never reuses a millisecond whose sequence field overflowed.
/// The wait is bounded by clock advancement, about one millisecond, so the
/// budget below can never run out; if it somehow did, the result is clamped
/// to the millisecond after `timestamp`. Only at the wrap of the 41-bit
/// timestamp field is no strictly later millisecond available.
fn race_next_milli(timestamp: i64, epoch: SystemTime) -> (r: i64)
    requires
        0 <= timestamp < MAX_TIMESTAMP,
    ensures
        0 <= r < MAX_TIMESTAMP,
        timestamp < TIMESTAMP_MASK ==> r > timestamp,
{
    let mut latest_time_millis: i64 = 0;
    let mut caught_up = false;
    let mut fuel: u64 = 0xFFFF_FFFF_FFFF_FFFF;
    while !caught_up && fuel > 0
        invariant
            0 <= latest_time_millis < MAX_TIMESTAMP,
            caught_up ==> latest_time_millis > timestamp,
        decreases fuel,
    {
        fuel = fuel - 1;
        let now = current_time_in_milli(copy_time(&epoch));
        let candidate = now & TIMESTAMP_MASK;
        assert(0 <= now & 0x1FF_FFFF_FFFFi64 < 0x200_0000_0000i64) by (bit_vector);
        if candidate > timestamp {
            latest_time_millis = candidate;
            caught_up = true;
        } else {
            spin_loop_hint();
        }
    }
    if !caught_up && timestamp < TIMESTAMP_MASK {
        latest_time_millis = timestamp + 1;
    }
    latest_time_millis
}

/// Holds a batch of pre-generated ids so that callers needing many ids pay
/// the per-millisecond pacing cost once per batch.
pub struct NumericalUniqueIdBucket {
    /// The generator hidden in the bucket.
    snowflake_id_generator: NumericalUniqueIdGenerator,
    /// The bucket buffer.
    bucket: Vec<i64>,
}

impl NumericalUniqueIdBucket {
    /// The configured datacenter id.
    pub closed spec fn spec_datacenter_id(&self) -> i32 {
        self.snowflake_id_generator.spec_datacenter_id()
    }

    /// The configured machine id.
    pub closed spec fn spec_machine_id(&self) -> i32 {
        self.snowflake_id_generator.spec_machine_id()
    }

    /// The buffered ids, oldest first; `get_id` pops from the back.
    pub closed spec fn spec_bucket(&self) -> Seq<i64> {
        self.bucket@
    }

    /// The partition pair fits its fields and every buffered id is one the
    /// generator could have produced.
    pub closed spec fn wf(&self) -> bool {
        &&& self.snowflake_id_generator.wf()
        &&& forall|i: int|
            0 <= i < self.bucket@.len() ==> well_formed_id(
                self.bucket@[i] as int,
                self.spec_datacenter_id() as int,
                self.spec_machine_id() as int,
            )
    }

    /// Constructs a bucket over a generator that uses the UNIX epoch.
    pub fn new(datacenter_id: i32, machine_id: i32) -> (r: Self)
        requires
            0 <= datacenter_id < 32,
            0 <= machine_id < 32,
        ensures
            r.wf(),
            r.spec_datacenter_id() == datacenter_id,
            r.spec_machine_id() == machine_id,
            r.spec_bucket() == Seq::<i64>::empty(),
    {
        Self::with_epoch(datacenter_id, machine_id, unix_epoch())
    }

    /// Constructs a bucket over a generator that uses the specified epoch.
    pub fn with_epoch(datacenter_id: i32, machine_id: i32, epoch: SystemTime) -> (r: Self)
        requires
            0 <= datacenter_id < 32,
            0 <= machine_id < 32,
        ensures
            r.wf(),
            r.spec_datacenter_id() == datacenter_id,
            r.spec_machine_id() == machine_id,
            r.spec_bucket() == Seq::<i64>::empty(),
    {
        let snowflake_id_generator = NumericalUniqueIdGenerator::with_epoch(datacenter_id, machine_id, epoch);
        let bucket = Vec::new();

        NumericalUniqueIdBucket { snowflake_id_generator, bucket }
    }

    /// Hands out one id, refilling the buffer with a batch of 4091 freshly
    /// generated ids when it is empty, and popping the youngest buffered id
    /// either way.
    pub fn get_id(&mut self) -> (r: i64)
        requires
            old(self).wf(),
        ensures
            final(self).wf(),
            final(self).spec_datacenter_id() == old(self).spec_datacenter_id(),
            final(self).spec_machine_id() == old(self).spec_machine_id(),
            well_formed_id(r as int, old(self).spec_datacenter_id() as int, old(self).spec_machine_id() as int),
            r >= 0,
            old(self).spec_bucket().len() > 0 ==> r == old(self).spec_bucket().last()
                && final(self).spec_bucket() == old(self).spec_bucket().drop_last(),
            old(self).spec_bucket().len() == 0 ==> final(self).spec_bucket().len() == 4090,
    {
        if self.bucket.is_empty() {
            self.fill_bucket();
        }
        let id = self.bucket.pop().unwrap();
        proof {
            let dc = self.spec_datacenter_id() as int;
            let mc = self.spec_machine_id() as int;
            assert(well_formed_id(id as int, dc, mc));
            let (ts, sq) = choose|ts: int, sq: int|
                id_fields_valid(ts, dc, mc, sq) && id as int == id_spec(ts, dc, mc, sq);
            assert(id_spec(ts, dc, mc, sq) >= 0);
        }
        id
    }

    /// Refills the buffer with a batch of 4091 freshly generated ids,
    /// appended behind whatever is already buffered.
    fn fill_bucket(&mut self)
        requires
            old(self).wf(),
        ensures
            final(self).wf(),
            final(self).spec_datacenter_id() == old(self).spec_datacenter_id(),
            final(self).spec_machine_id() == old(self).spec_machine_id(),
            final(self).bucket@.len() == old(self).bucket@.len() + 4091,
            old(self).bucket@.is_prefix_of(final(self).bucket@),
    {
        let ghost initial = self.bucket@;
        for n in 0usize..4091usize
            invariant
                self.wf(),
                self.spec_datacenter_id() == old(self).spec_datacenter_id(),
                self.spec_machine_id() == old(self).spec_machine_id(),
                self.bucket@.len() == initial.len() + n,
                initial.is_prefix_of(self.bucket@),
        {
            let id = self.snowflake_id_generator.generate();
            self.bucket.push(id);
        }
    }
}

/// A 64-bit identifier wrapped for use as an aggregate or outbox key.
#[derive(Clone, Hash, PartialEq, Debug, Eq, Ord, PartialOrd, Copy, Default, Structural)]
pub struct SnowFlake(pub i64);

impl SnowFlake {
    /// Draws the next id from the given generator.
    pub fn generate(generator: &NumericalUniqueIdGenerator) -> (r: Self)
        requires
            generator.wf(),
        ensures
            well_formed_id(r.0 as int, generator.spec_datacenter_id() as int, generator.spec_machine_id() as int),
            r.0 >= 0,
    {
        SnowFlake(generator.generate())
    }

    /// Accepts an unsigned id if and only if it fits the signed value range
    /// the wire format uses.
    pub fn from_u64(id: u64) -> (r: Option<SnowFlake>)
        ensures
            r is Some <==> id < 0x7FFF_FFFF_FFFF_FFFF,
            r matches Some(s) ==> s.0 == id as i64 && s.0 >= 0,
    {
        if id < 0x7FFF_FFFF_FFFF_FFFF {
            Some(SnowFlake(id as i64))
        } else {
            None
        }
    }

    /// Parses a decimal string into an id: accepted if and only if the
    /// text, after an optional leading plus sign, is one or more ASCII
    /// digits whose value fits `from_u64`.
    pub fn parse_str(s: &str) -> (r: Option<SnowFlake>)
        ensures
            r is Some <==> ({
                let digits = decimal_digits(s@);
                digits.len() > 0 && all_digits(digits) && digits_value(digits) < 0x7FFF_FFFF_FFFF_FFFF
            }),
            r matches Some(v) ==> v.0 == digits_value(decimal_digits(s@)) && v.0 >= 0,
    {
        let len = s.unicode_len();
        let body = if len > 0 && s.get_char(0) == '+' {
            let rest = s.substring_char(1, len);
            proof {
                assert(s@.subrange(1, len as int) =~= s@.drop_first());
            }
            rest
        } else {
            s
        };
        match parse_u64(body) {
            Some(value) => Self::from_u64(value),
            None => None,
        }
    }
}

/// The digit text of a decimal number: the text itself, or what follows one
/// leading plus sign.
pub open spec fn decimal_digits(s: Seq<char>) -> Seq<char> {
    if s.len() > 0 && s[0] == '+' {
        s.drop_first()
    } else {
        s
    }
}

/// Every character of the text is an ASCII digit.
pub open spec fn all_digits(s: Seq<char>) -> bool {
    forall|i: int| 0 <= i < s.len() ==> '0' <= #[trigger] s[i] <= '9'
}

/// The numeric value of a text of ASCII digits, most significant first.
pub open spec fn digits_value(s: Seq<char>) -> int
    decreases s.len(),
{
    if s.len() == 0 {
        0
    } else {
        digits_value(s.drop_last()) * 10 + (s.last() as int - '0' as int)
    }
}

/// Parses an unsigned decimal number: accepted if and only if the text is
/// one or more ASCII digits and its value fits in 64 bits.
fn parse_u64(s: &str) -> (r: Option<u64>)
    ensures
        r is Some <==> s@.len() > 0 && all_digits(s@) && digits_value(s@) <= u64::MAX,
        r matches Some(v) ==> v == digits_value(s@),
{
    let len = s.unicode_len();
    if len == 0 {
        return None;
    }
    let mut value: u64 = 0;
    let mut i: usize = 0;
    while i < len
        invariant
            0 <= i <= len,
            len == s@.len(),
            all_digits(s@.subrange(0, i as int)),
            value == digits_value(s@.subrange(0, i as int)),
        decreases len - i,
    {
        let c = s.get_char(i);
        if c < '0' || c > '9' {
            proof {
                assert(s@.subrange(0, len as int) =~= s@);
            }
            return None;
        }
        let d = (c as u32 - '0' as u32) as u64;
        assert(d <= 9);
        let overflow = value > 0x1999_9999_9999_9999 || (value == 0x1999_9999_9999_9999 && d > 5);
        if overflow {
            proof {
                if all_digits(s@) {
                    lemma_digits_value_grows(s@, i as int);
                }
            }
            return None;
        }
        value = value * 10 + d;
        proof {
            assert(s@.subrange(0, i + 1 as int).drop_last() =~= s@.subrange(0, i as int));
        }
        i = i + 1;
    }
    proof {
        assert(s@.subrange(0, len as int) =~= s@);
    }
    Some(value)
}

/// When a digit prefix already exceeds what one more digit can keep within
/// 64 bits, the value of the whole text exceeds it too.
proof fn lemma_digits_value_grows(s: Seq<char>, i: int)
    requires
        0 <= i < s.len(),
        all_digits(s),
        digits_value(s.subrange(0, i)) * 10 + (s[i] as int - '0' as int) > u64::MAX,
    ensures
        digits_value(s) > u64::MAX,
    decreases s.len() - i,
{
    if i == s.len() - 1 {
        assert(s.subrange(0, s.len() - 1) =~= s.drop_last());
    } else {
        assert(s.subrange(0, i + 1).drop_last() =~= s.subrange(0, i));
        assert(digits_value(s.subrange(0, i + 1)) == digits_value(s.subrange(0, i)) * 10 + (s[i] as int - '0' as int));
        assert(digits_value(s.subrange(0, i + 1)) * 10 + (s[i + 1] as int - '0' as int) > u64::MAX);
        lemma_digits_value_grows(s, i + 1);
    }
}

impl From<i64> for SnowFlake {
    fn from(value: i64) -> (r: SnowFlake)
        ensures
            r.0 == value,
    {
        SnowFlake(value)
    }
}

impl vstd::std_specs::convert::FromSpecImpl<i64> for SnowFlake {
    open spec fn obeys_from_spec() -> bool {
        true
    }

    open spec fn from_spec(value: i64) -> SnowFlake {
        SnowFlake(value)
    }
}

impl From<SnowFlake> for i64 {
    fn from(value: SnowFlake) -> (r: i64)
        ensures
            r == value.0,
    {
        value.0
    }
}

impl vstd::std_specs::convert::FromSpecImpl<SnowFlake> for i64 {
    open spec fn obeys_from_spec() -> bool {
        true
    }

    open spec fn from_spec(value: SnowFlake) -> i64 {
        value.0
    }
}

/// Law: a successful compare-and-swap strictly increases the packed word.
/// The new word either carries a later timestamp than the word it replaces,
/// or the same timestamp with the sequence incremented by one; either way it
/// exceeds the old word, so the ids drawn from one generator never repeat
/// and never decrease over its lifetime.
pub proof fn lemma_word_advances(current: i64, new_ts: i64, new_seq: i64)
    by (bit_vector)
    requires
        0 <= new_ts < 0x200_0000_0000,
        0 <= new_seq < 4096,
        (current >> 12) < new_ts || ((current >> 12) == new_ts && new_seq == (current & 0xFFF) + 1),
    ensures
        new_ts * 4096 + new_seq > current,
{
}

/// Law (uniqueness): two ids whose field quadruples differ at all are
/// distinct values, so ids drawn at distinct (timestamp, sequence) pairs by
/// one generator, or by two generators with distinct partition pairs, never
/// collide.
pub proof fn lemma_id_unique(
    ts1: int, dc1: int, mc1: int, sq1: int,
    ts2: int, dc2: int, mc2: int, sq2: int,
)
    requires
        id_fields_valid(ts1, dc1, mc1, sq1),
        id_fields_valid(ts2, dc2, mc2, sq2),
        (ts1, dc1, mc1, sq1) != (ts2, dc2, mc2, sq2),
    ensures
        id_spec(ts1, dc1, mc1, sq1) != id_spec(ts2, dc2, mc2, sq2),
{
    lemma_id_monotone_general(ts1, dc1, mc1, sq1, ts2, dc2, mc2, sq2);
    lemma_id_monotone_general(ts2, dc2, mc2, sq2, ts1, dc1, mc1, sq1);
}

/// Lexicographic order of the field quadruple carries over to the id values.
proof fn lemma_id_monotone_general(
    ts1: int, dc1: int, mc1: int, sq1: int,
    ts2: int, dc2: int, mc2: int, sq2: int,
)
    requires
        id_fields_valid(ts1, dc1, mc1, sq1),
        id_fields_valid(ts2, dc2, mc2, sq2),
    ensures
        (ts1, dc1, mc1, sq1) == (ts2, dc2, mc2, sq2) || ts1 < ts2 || ts2 < ts1
            || (ts1 == ts2 && (dc1 != dc2 || mc1 != mc2 || sq1 != sq2)),
        ts1 < ts2 ==> id_spec(ts1, dc1, mc1, sq1) < id_spec(ts2, dc2, mc2, sq2),
        ts1 == ts2 && dc1 < dc2 ==> id_spec(ts1, dc1, mc1, sq1) < id_spec(ts2, dc2, mc2, sq2),
        ts1 == ts2 && dc1 == dc2 && mc1 < mc2 ==> id_spec(ts1, dc1, mc1, sq1) < id_spec(ts2, dc2, mc2, sq2),
        ts1 == ts2 && dc1 == dc2 && mc1 == mc2 && sq1 < sq2 ==> id_spec(ts1, dc1, mc1, sq1) < id_spec(ts2, dc2, mc2, sq2),
{
}

/// Law (monotonicity): for one generator — a fixed partition pair — ids
/// ordered by (timestamp, sequence) are strictly increasing, and an id from
/// a strictly later millisecond exceeds any id of the earlier millisecond by
/// more than one: a pause of at least one millisecond never yields a merely
/// consecutive id.
pub proof fn lemma_id_monotone(dc: int, mc: int, ts1: int, sq1: int, ts2: int, sq2: int)
    requires
        id_fields_valid(ts1, dc, mc, sq1),
        id_fields_valid(ts2, dc, mc, sq2),
        ts1 < ts2 || (ts1 == ts2 && sq1 < sq2),
    ensures
        id_spec(ts1, dc, mc, sq1) < id_spec(ts2, dc, mc, sq2),
        ts1 < ts2 ==> id_spec(ts1, dc, mc, sq1) + 1 < id_spec(ts2, dc, mc, sq2),
{
}

/// Law: the order of the packed words a generator publishes carries over to
/// the ids built from them. Together with the strict growth of the packed
/// word at each successful compare-and-swap, the ids one generator hands
/// out never decrease and never repeat.
pub proof fn lemma_word_order_carries_to_ids(dc: int, mc: int, ts1: int, sq1: int, ts2: int, sq2: int)
    requires
        id_fields_valid(ts1, dc, mc, sq1),
        id_fields_valid(ts2, dc, mc, sq2),
        ts1 * 4096 + sq1 < ts2 * 4096 + sq2,
    ensures
        id_spec(ts1, dc, mc, sq1) < id_spec(ts2, dc, mc, sq2),
{
    if ts1 == ts2 {
        lemma_id_monotone(dc, mc, ts1, sq1, ts2, sq2);
    } else if ts1 < ts2 {
        lemma_id_monotone(dc, mc, ts1, sq1, ts2, sq2);
    } else {
        assert(ts1 * 4096 >= (ts2 + 1) * 4096);
        assert(false);
    }
}

} // verus!
