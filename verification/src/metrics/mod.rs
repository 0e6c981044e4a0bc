//! Tagged, typed measurements: what a probe hands to a backend.

pub mod kind;

use crate::metrics::kind::Kind;
use std::ops::Range;
use std::slice::Iter;
use vstd::std_specs::slice::{axiom_spec_slice_iter, into_iter_elts};
use vstd::prelude::*;

verus! {

/// An ordered list of (key, value) pairs. A key may occur more than once;
/// the order is the order of insertion.
#[derive(Debug, Clone, PartialEq, Eq)]
pub struct Tags(pub Vec<(String, String)>);

/// The value of the first pair of `tags` whose key is `key`.
pub open spec fn first_value(tags: Seq<(Seq<char>, Seq<char>)>, key: Seq<char>) -> Option<
    Seq<char>,
>
    decreases tags.len(),
{
    if tags.len() == 0 {
        None
    } else if tags[0].0 == key {
        Some(tags[0].1)
    } else {
        first_value(tags.drop_first(), key)
    }
}

/// The pairs of strings as pairs of texts.
pub open spec fn pairs_view(pairs: Seq<(String, String)>) -> Seq<(Seq<char>, Seq<char>)> {
    Seq::new(pairs.len(), |i: int| (pairs[i].0@, pairs[i].1@))
}

/// The first match wins: a pair put in front decides the lookup of its own
/// key and leaves that of every other key as it was; a pair appended behind
/// matters only where the key was not there before.
pub proof fn lemma_first_match_wins(
    tags: Seq<(Seq<char>, Seq<char>)>,
    pair: (Seq<char>, Seq<char>),
    key: Seq<char>,
)
    ensures
        first_value(seq![pair] + tags, key) == if pair.0 == key {
            Some(pair.1)
        } else {
            first_value(tags, key)
        },
        first_value(tags.push(pair), key) == if first_value(tags, key) is Some {
            first_value(tags, key)
        } else if pair.0 == key {
            Some(pair.1)
        } else {
            None
        },
    decreases tags.len(),
{
    assert((seq![pair] + tags).drop_first() =~= tags);
    if tags.len() == 0 {
        assert(tags.push(pair).drop_first() =~= tags);
    } else {
        assert(tags.push(pair).drop_first() =~= tags.drop_first().push(pair));
        lemma_first_match_wins(tags.drop_first(), pair, key);
    }
}

impl View for Tags {
    type V = Seq<(Seq<char>, Seq<char>)>;

    open spec fn view(&self) -> Seq<(Seq<char>, Seq<char>)> {
        pairs_view(self.0@)
    }
}

impl Tags {
    /// No tags.
    pub fn new() -> (tags: Tags)
        ensures
            tags@ == Seq::<(Seq<char>, Seq<char>)>::empty(),
    {
        let tags = Tags(Vec::with_capacity(16));
        assert(tags@ =~= Seq::<(Seq<char>, Seq<char>)>::empty());
        tags
    }

    /// Puts the pair behind those that are there, also where the key is
    /// there already.
    pub fn insert(&mut self, k: &str, v: &str)
        ensures
            final(self)@ == old(self)@.push((k@, v@)),
    {
        self.0.push((k.to_owned(), v.to_owned()));
        assert(self@ =~= old(self)@.push((k@, v@)));
    }

    /// Moves all pairs of `other` behind those of `self`, in their order,
    /// and leaves `other` empty.
    pub fn append(&mut self, other: &mut Tags)
        ensures
            final(self)@ == old(self)@ + old(other)@,
            final(other)@ == Seq::<(Seq<char>, Seq<char>)>::empty(),
    {
        self.0.append(&mut other.0);
        assert(self@ =~= old(self)@ + old(other)@);
        assert(other@ =~= Seq::<(Seq<char>, Seq<char>)>::empty());
    }

    /// An iterator over the pairs, in order.
    pub fn iter(&self) -> (pairs: Iter<'_, (String, String)>)
        ensures
            pairs_view(into_iter_elts(pairs)) == self@,
    {
        let all = self.0.as_slice();
        let pairs = all.iter();
        proof {
            axiom_spec_slice_iter(all);
            assert(into_iter_elts(pairs) =~= self.0@);
        }
        pairs
    }

    /// The pairs, in order, to walk over and change in place. Their number
    /// stays as it is.
    pub fn iter_mut(&mut self) -> (pairs: &mut [(String, String)])
        ensures
            pairs_view(pairs@) == old(self)@,
            pairs_view(final(pairs)@) == final(self)@,
    {
        self.0.as_mut_slice()
    }

    /// Takes the pairs at the places `r.start..r.end` out of the tags and
    /// hands them back in their order; the pairs behind move up.
    pub fn drain(&mut self, r: Range<usize>) -> (drained: Vec<(String, String)>)
        requires
            r.start <= r.end <= old(self)@.len(),
        ensures
            pairs_view(drained@) == old(self)@.subrange(r.start as int, r.end as int),
            final(self)@ == old(self)@.subrange(0, r.start as int) + old(self)@.subrange(
                r.end as int,
                old(self)@.len() as int,
            ),
    {
        let mut tail = self.0.split_off(r.end);
        let drained = self.0.split_off(r.start);
        self.0.append(&mut tail);
        assert(pairs_view(drained@) =~= old(self)@.subrange(r.start as int, r.end as int));
        assert(self@ =~= old(self)@.subrange(0, r.start as int) + old(self)@.subrange(
            r.end as int,
            old(self)@.len() as int,
        ));
        drained
    }

    /// The value of the first pair whose key is `k`.
    pub fn get(&self, k: &str) -> (r: Option<&str>)
        ensures
            match r {
                Some(v) => first_value(self@, k@) == Some(v@),
                None => first_value(self@, k@) is None,
            },
    {
        let ks = k.to_owned();
        let mut i: usize = 0;
        assert(self@.skip(0) =~= self@);
        while i < self.0.len()
            invariant
                i <= self.0@.len(),
                ks@ == k@,
                first_value(self@, k@) == first_value(self@.skip(i as int), k@),
            decreases self.0.len() - i,
        {
            proof {
                assert(self@.skip(i as int).drop_first() =~= self@.skip(i + 1));
                assert(self@.skip(i as int)[0] == self@[i as int]);
            }
            if self.0[i].0 == ks {
                return Some(self.0[i].1.as_str());
            }
            i += 1;
        }
        None
    }
}

/// What can be turned into tags.
pub trait ToTags {
    /// The tags that `self` turns into.
    spec fn tags_of(self) -> Seq<(Seq<char>, Seq<char>)>;

    fn to_tags(self) -> (tags: Tags)
        ensures
            tags@ == self.tags_of(),
    ;
}

impl ToTags for Tags {
    open spec fn tags_of(self) -> Seq<(Seq<char>, Seq<char>)> {
        self@
    }

    fn to_tags(self) -> (tags: Tags) {
        self
    }
}

/// The value of a measurement with its unit.
#[derive(Debug, Clone, PartialEq, Eq)]
pub enum Unit {
    /// A number of bytes.
    Byte(u64),
    /// A number of things.
    Count(u64),
    /// A value and the rank of the percentile that it is.
    Percentile(u64, u64),
    /// A text.
    Str(String),
}

impl Unit {
    /// The count that a unit stands for: its number for bytes and counts,
    /// zero for a text.
    pub open spec fn count(self) -> u64 {
        match self {
            Unit::Byte(x) => x,
            Unit::Count(x) => x,
            _ => 0,
        }
    }

    /// The count of a value in bytes or things. A text has none and gives
    /// zero; that is no failure. A percentile is no count and is left out.
    pub fn get(&self) -> (n: u64)
        requires
            !(self is Percentile),
        ensures
            n == self.count(),
    {
        match self {
            Unit::Byte(x) => *x,
            Unit::Count(x) => *x,
            _ => 0,
        }
    }
}

/// The share of events that a measurement stands for, as a fraction above
/// zero and up to one.
#[derive(Debug, Clone, Copy, PartialEq, Eq)]
pub struct SampleRate {
    numerator: u32,
    denominator: u32,
}

impl SampleRate {
    #[verifier::type_invariant]
    spec fn in_range(self) -> bool {
        0 < self.numerator <= self.denominator
    }

    /// The numerator of the fraction.
    pub closed spec fn num(self) -> u32 {
        self.numerator
    }

    /// The denominator of the fraction.
    pub closed spec fn den(self) -> u32 {
        self.denominator
    }

    /// The rate `numerator / denominator`, where that lies above zero and
    /// not above one.
    pub fn new(numerator: u32, denominator: u32) -> (r: Option<SampleRate>)
        ensures
            r is Some <==> 0 < numerator <= denominator,
            r matches Some(rate) ==> rate.num() == numerator && rate.den() == denominator,
    {
        if 0 < numerator && numerator <= denominator {
            Some(SampleRate { numerator, denominator })
        } else {
            None
        }
    }

    /// The rate one: every event is measured.
    pub fn whole() -> (rate: SampleRate)
        ensures
            rate.num() == 1,
            rate.den() == 1,
    {
        SampleRate { numerator: 1, denominator: 1 }
    }

    /// The numerator of the fraction; never zero.
    pub fn numerator(&self) -> (n: u32)
        ensures
            n == self.num(),
            0 < n <= self.den(),
    {
        proof {
            use_type_invariant(self);
        }
        self.numerator
    }

    /// The denominator of the fraction; never below the numerator.
    pub fn denominator(&self) -> (d: u32)
        ensures
            d == self.den(),
            0 < self.num() <= d,
    {
        proof {
            use_type_invariant(self);
        }
        self.denominator
    }
}

/// One observation: when, of what kind, under what name, with what value,
/// and the tags that describe it.
#[derive(Debug, Clone, PartialEq, Eq)]
pub struct Measurement {
    /// Nanoseconds since the epoch.
    pub timestamp: u64,
    pub kind: Kind,
    pub name: String,
    pub value: Unit,
    pub sample_rate: Option<SampleRate>,
    pub reset: bool,
    pub tags: Tags,
}

impl Measurement {
    /// A measurement taken at `timestamp`, at the rate one, to be reset.
    pub fn at(timestamp: u64, kind: Kind, name: String, value: Unit, tags: Tags) -> (m: Self)
        ensures
            m.timestamp == timestamp,
            m.kind == kind,
            m.name == name,
            m.value == value,
            m.sample_rate matches Some(rate) && rate.num() == 1 && rate.den() == 1,
            m.reset,
            m.tags == tags,
    {
        Measurement {
            timestamp,
            kind,
            name,
            value,
            sample_rate: Some(SampleRate::whole()),
            reset: true,
            tags,
        }
    }

    /// A measurement taken now, by the wall clock, at the rate one, to be
    /// reset. There is none where the clock has no reading, which is where
    /// it stands before the epoch; else the timestamp is that of the
    /// reading.
    pub fn new(kind: Kind, name: String, value: Unit, tags: Tags) -> (m: Option<Self>)
        ensures
            m matches Some(taken) ==> {
                &&& taken.kind == kind
                &&& taken.name == name
                &&& taken.value == value
                &&& taken.sample_rate matches Some(rate) && rate.num() == 1 && rate.den() == 1
                &&& taken.reset
                &&& taken.tags == tags
            },
            exists|reading: Option<(u64, u32)>|
                (reading matches Some((_, n)) ==> n < NANOS_PER_SEC) && (match #[trigger] reading_timestamp(
                    reading,
                ) {
                    Some(timestamp) => m matches Some(taken) && taken.timestamp == timestamp,
                    None => m is None,
                }),
    {
        match timestamp_now() {
            Some(timestamp) => Some(Measurement::at(timestamp, kind, name, value, tags)),
            None => None,
        }
    }
}

/// The nanoseconds in a second.
pub const NANOS_PER_SEC: u64 = 1_000_000_000;

/// The nanoseconds that `secs` seconds and `subsec_nanos` nanoseconds are.
pub open spec fn nanos(secs: u64, subsec_nanos: u32) -> int {
    secs * NANOS_PER_SEC + subsec_nanos
}

/// A time since the epoch in nanoseconds, as far as a `u64` holds it: what
/// lies beyond is held at the largest value.
pub fn timestamp_from(secs: u64, subsec_nanos: u32) -> (t: u64)
    ensures
        t == if nanos(secs, subsec_nanos) <= u64::MAX {
            nanos(secs, subsec_nanos)
        } else {
            u64::MAX as int
        },
{
    match secs.checked_mul(NANOS_PER_SEC) {
        Some(whole) => whole.saturating_add(subsec_nanos as u64),
        None => u64::MAX,
    }
}

/// The timestamp that a reading of the clock stands for. A reading is the
/// whole seconds and the nanoseconds since the epoch, and its timestamp is
/// their nanoseconds as far as a `u64` holds them. The clock has no reading
/// where it stands before the epoch, and then there is no timestamp.
pub open spec fn reading_timestamp(reading: Option<(u64, u32)>) -> Option<u64> {
    match reading {
        Some((secs, subsec_nanos)) => Some(
            if nanos(secs, subsec_nanos) <= u64::MAX {
                nanos(secs, subsec_nanos) as u64
            } else {
                u64::MAX
            },
        ),
        None => None,
    }
}

/// The timestamp of a reading of the clock; `None` where there is no
/// reading.
pub fn timestamp_of(reading: Option<(u64, u32)>) -> (t: Option<u64>)
    ensures
        t == reading_timestamp(reading),
{
    match reading {
        Some((secs, subsec_nanos)) => Some(timestamp_from(secs, subsec_nanos)),
        None => None,
    }
}

/// A point of the system's clock, `std::time::SystemTime`; nothing is known
/// of what is inside.
#[verifier::external_type_specification]
#[verifier::external_body]
pub struct ExSystemTime(std::time::SystemTime);

/// The failure of `SystemTime::duration_since`, `std::time::SystemTimeError`.
#[verifier::external_type_specification]
#[verifier::external_body]
pub struct ExSystemTimeError(std::time::SystemTimeError);

/// `SystemTime::now` reads the wall clock. Nothing is claimed of what it
/// hands back.
pub assume_specification[ std::time::SystemTime::now ]() -> (now: std::time::SystemTime)
;

/// `SystemTime::duration_since` gives the time that lies between `earlier`
/// and `time`, or fails where `earlier` is the later one. Nothing is claimed
/// of which it gives.
pub assume_specification[ std::time::SystemTime::duration_since ](
    time: &std::time::SystemTime,
    earlier: std::time::SystemTime,
) -> (elapsed: Result<std::time::Duration, std::time::SystemTimeError>)
;

/// `Duration::as_secs` gives the whole seconds of a duration. Nothing is
/// claimed of their number.
pub assume_specification[ std::time::Duration::as_secs ](elapsed: &std::time::Duration) -> (secs:
    u64)
;

/// `Duration::subsec_nanos` gives the part of a duration below one second,
/// in nanoseconds: a number below one thousand million.
pub assume_specification[ std::time::Duration::subsec_nanos ](
    elapsed: &std::time::Duration,
) -> (subsec_nanos: u32)
    ensures
        subsec_nanos < 1_000_000_000,
;

/// The epoch, `std::time::UNIX_EPOCH`. Nothing is claimed of it.
#[verifier::external_body]
fn unix_epoch() -> (epoch: std::time::SystemTime) {
    std::time::UNIX_EPOCH
}

/// What the wall clock reads: the whole seconds and the nanoseconds of the
/// running second since the epoch; `None` where the clock stands before the
/// epoch.
fn wall_clock() -> (reading: Option<(u64, u32)>)
    ensures
        reading matches Some((_, subsec_nanos)) ==> subsec_nanos < NANOS_PER_SEC,
{
    let now = std::time::SystemTime::now();
    match now.duration_since(unix_epoch()) {
        Ok(elapsed) => Some((elapsed.as_secs(), elapsed.subsec_nanos())),
        Err(_) => None,
    }
}

/// The time now in nanoseconds since the epoch: the timestamp of what the
/// wall clock reads at the call. A clock that stands before the epoch has no
/// reading, and then there is no timestamp. What the clock reads is its own
/// matter; `timestamp_of` says what each reading gives.
pub fn timestamp_now() -> (t: Option<u64>)
    ensures
        exists|reading: Option<(u64, u32)>|
            (reading matches Some((_, n)) ==> n < NANOS_PER_SEC) && t == #[trigger] reading_timestamp(
                reading,
            ),
{
    timestamp_of(wall_clock())
}

} // verus!
