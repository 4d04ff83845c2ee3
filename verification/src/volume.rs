//! Volume control: a per-participant divisor applied to every sample.

use std::sync::Arc;
use vstd::prelude::*;

verus! {

/// Truncating division of `s` by a positive `d`: the quotient rounded toward zero.
pub open spec fn truncating_quotient(s: int, d: int) -> int {
    if s >= 0 {
        s / d
    } else {
        -((-s) / d)
    }
}

/// A volume divisor: a whole number from 1 to 32767. A larger divisor
/// attenuates more; 1 leaves the audio as it is. Zero cannot be held.
#[derive(Debug, Clone, Copy)]
pub struct Divisor {
    value: i16,
}

impl Divisor {
    #[verifier::type_invariant]
    spec fn positive(self) -> bool {
        self.value >= 1
    }

    /// The number this divisor divides by.
    pub closed spec fn amount(self) -> int {
        self.value as int
    }

    /// A divisor of `value`, or nothing where `value` is zero or negative.
    pub fn new(value: i16) -> (made: Option<Divisor>)
        ensures
            made.is_some() <==> value >= 1,
            made.is_some() ==> made.unwrap().amount() == value,
    {
        if value >= 1 {
            Some(Divisor { value })
        } else {
            None
        }
    }

    /// The divisor that changes nothing.
    pub fn unit() -> (made: Divisor)
        ensures
            made.amount() == 1,
    {
        Divisor { value: 1 }
    }

    /// Reads the number back.
    pub fn get(&self) -> (value: i16)
        ensures
            value == self.amount(),
            value >= 1,
    {
        proof {
            use_type_invariant(self);
        }
        self.value
    }

    /// Divides one sample, rounding toward zero.
    pub fn apply(&self, sample: i16) -> (scaled: i16)
        ensures
            scaled == truncating_quotient(sample as int, self.amount()),
    {
        proof {
            use_type_invariant(self);
        }
        let d: u16 = self.value as u16;
        if sample >= 0 {
            let q: u16 = (sample as u16) / d;
            q as i16
        } else {
            let magnitude: i32 = -(sample as i32);
            let q: u16 = (magnitude as u16) / d;
            let signed: i32 = -(q as i32);
            signed as i16
        }
    }
}

/// One byte of a sample written as sixteen bits in two's complement: with
/// `big_endian` the high byte comes first (`which` 0), else the low byte.
pub open spec fn sample_byte(value: int, which: int, big_endian: bool) -> int {
    let unsigned = if value >= 0 {
        value
    } else {
        value + 65536
    };
    if (which == 0) == big_endian {
        unsigned / 256
    } else {
        unsigned % 256
    }
}

/// The bytes forwarded for a decoded frame: every second sample, starting
/// with the first, divided by `d` and written as two bytes.
pub open spec fn scaled_frame(samples: Seq<i16>, d: int, big_endian: bool) -> Seq<u8> {
    Seq::new(
        (2 * ((samples.len() + 1) / 2)) as nat,
        |i: int| sample_byte(truncating_quotient(samples[(i / 2) * 2] as int, d), i % 2, big_endian) as u8,
    )
}

/// The divisor to use for a participant: the stored one, or 1 where none is
/// stored.
pub fn divisor_or_unit(stored: Option<Divisor>) -> (divisor: Divisor)
    ensures
        divisor.amount() == match stored {
            Some(d) => d.amount(),
            None => 1,
        },
{
    match stored {
        Some(d) => d,
        None => Divisor::unit(),
    }
}

/// Scales a decoded frame for forwarding: takes every second sample, divides
/// it by `divisor` and writes it as two bytes, the high byte first where
/// `big_endian` is set.
pub fn scale_frame(samples: &[i16], divisor: Divisor, big_endian: bool) -> (bytes: Vec<u8>)
    ensures
        bytes@ == scaled_frame(samples@, divisor.amount(), big_endian),
{
    let pairs: usize = samples.len() / 2 + samples.len() % 2;
    let mut bytes: Vec<u8> = Vec::new();
    let mut j: usize = 0;
    while j < pairs
        invariant
            pairs == (samples@.len() + 1) / 2,
            samples@.len() <= usize::MAX,
            j <= pairs,
            bytes@.len() == 2 * j,
            forall|i: int|
                0 <= i < bytes@.len() ==> bytes@[i] == scaled_frame(
                    samples@,
                    divisor.amount(),
                    big_endian,
                )[i],
        decreases pairs - j,
    {
        let scaled: i16 = divisor.apply(samples[2 * j]);
        let unsigned: u16 = if scaled >= 0 {
            scaled as u16
        } else {
            (scaled as i32 + 65536) as u16
        };
        let high: u8 = (unsigned / 256) as u8;
        let low: u8 = (unsigned % 256) as u8;
        if big_endian {
            bytes.push(high);
            bytes.push(low);
        } else {
            bytes.push(low);
            bytes.push(high);
        }
        j += 1;
    }
    assert(bytes@ =~= scaled_frame(samples@, divisor.amount(), big_endian));
    bytes
}

/// dashmap's `DashMap`, carried as an opaque value.
#[verifier::external_type_specification]
#[verifier::external_body]
#[verifier::reject_recursive_types(K)]
#[verifier::reject_recursive_types(V)]
#[verifier::reject_recursive_types(S)]
pub struct ExDashMap<K, V, S>(dashmap::DashMap<K, V, S>);

/// Calls `DashMap::get` and clones the value of the entry it finds. The map
/// is shared and may be written to at any time from elsewhere, so nothing is
/// claimed of the result. dashmap may deadlock where the calling thread
/// holds a mutable reference into the same map; this library holds none.
#[verifier::external_body]
pub(crate) fn stored<V: Clone>(map: &dashmap::DashMap<u64, V>, key: u64) -> (found: Option<V>) {
    map.get(&key).map(|entry| entry.value().clone())
}

/// Calls `DashMap::insert` and drops the value that was stored before.
/// dashmap may deadlock where the calling thread holds any reference into
/// the same map; this library holds none.
#[verifier::external_body]
pub(crate) fn store<V>(map: &dashmap::DashMap<u64, V>, key: u64, value: V) {
    map.insert(key, value);
}

/// Calls `DashMap::new`. Nothing is claimed of the new map.
#[verifier::external_body]
pub(crate) fn empty_volumes() -> (volumes: dashmap::DashMap<u64, Divisor>) {
    dashmap::DashMap::new()
}

/// The volume map of a guild: the one that `all` holds for it, or a new,
/// empty one, which `all` holds for the guild from then on. Every session
/// of the guild shares the one map, which outlives them.
pub fn volumes_of_guild(all: &dashmap::DashMap<u64, Arc<dashmap::DashMap<u64, Divisor>>>, guild: u64) -> (volumes:
    Arc<dashmap::DashMap<u64, Divisor>>) {
    found_or_new_volumes(all, guild, stored(all, guild))
}

/// Settles which volume map a guild gets, given what `all` was found to hold
/// for it: the map that was found, or, where none was found, a new one,
/// which `all` holds for the guild from then on.
pub fn found_or_new_volumes(
    all: &dashmap::DashMap<u64, Arc<dashmap::DashMap<u64, Divisor>>>,
    guild: u64,
    found: Option<Arc<dashmap::DashMap<u64, Divisor>>>,
) -> (volumes: Arc<dashmap::DashMap<u64, Divisor>>)
    ensures
        found matches Some(held) ==> volumes == held,
{
    match found {
        Some(held) => held,
        None => {
            let volumes = Arc::new(empty_volumes());
            store(all, guild, volumes.clone());
            volumes
        },
    }
}

/// Dividing by 1 gives the sample back, and dividing rounds toward zero: the
/// quotient is never further from zero than the sample, and what is lost is
/// less than the divisor.
pub proof fn truncating_quotient_bounds(s: int, d: int)
    requires
        d >= 1,
    ensures
        truncating_quotient(s, 1) == s,
        s >= 0 ==> 0 <= truncating_quotient(s, d) * d <= s < truncating_quotient(s, d) * d + d,
        s < 0 ==> 0 >= truncating_quotient(s, d) * d >= s > truncating_quotient(s, d) * d - d,
{
    if s >= 0 {
        vstd::arithmetic::div_mod::lemma_fundamental_div_mod(s, d);
        vstd::arithmetic::div_mod::lemma_mod_bound(s, d);
        vstd::arithmetic::div_mod::lemma_div_pos_is_pos(s, d);
        assert(d * (s / d) == (s / d) * d) by (nonlinear_arith);
        assert(0 <= s / d ==> 0 <= (s / d) * d) by (nonlinear_arith)
            requires d >= 1;
    } else {
        let m = -s;
        vstd::arithmetic::div_mod::lemma_fundamental_div_mod(m, d);
        vstd::arithmetic::div_mod::lemma_mod_bound(m, d);
        vstd::arithmetic::div_mod::lemma_div_pos_is_pos(m, d);
        assert(d * (m / d) == (m / d) * d) by (nonlinear_arith);
        assert((-(m / d)) * d == -((m / d) * d)) by (nonlinear_arith);
        assert(0 <= m / d ==> 0 <= (m / d) * d) by (nonlinear_arith)
            requires d >= 1;
    }
}

} // verus!
