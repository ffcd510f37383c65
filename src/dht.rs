//! Decoding of a temperature and humidity sensor's reply from the measured
//! pulse timings: forty bits, five bytes, the last a checksum of the others.
//! Values are kept in tenths, as the sensor sends them.
use crate::bluetooth::trunc_div;
use vstd::prelude::*;

verus! {

/// Pulses longer than this, in microseconds, hold more than one bit.
pub const CUTOFF: i64 = 100;

/// Largest pulse length, either way, that decoding accepts.
pub const PULSE_BOUND: i64 = 1_000_000_000_000;

/// Why a reply could not be decoded.
#[derive(Debug, Clone, Copy, PartialEq, Eq, Structural)]
pub enum Errors {
    /// Too few pulses; carries their count, modulo 256.
    Timeout(u8),
    /// The checksum did not match.
    Checksum,
}

/// A decoded reply.
#[derive(Debug, Clone, Copy, PartialEq, Eq, Structural)]
pub struct Reading {
    /// Relative humidity in tenths of a percent.
    pub humidity_tenths: u16,
    /// Temperature in tenths of a degree Celsius; negative when the sign
    /// bit of the third byte is set.
    pub temperature_tenths: i16,
}

/// The bit lengths read from one (low, high) pulse pair. Short pairs are one
/// bit; a long pair is split in two as well as can be done.
pub open spec fn clean_pair(lo: int, hi: int) -> Seq<int> {
    if lo < CUTOFF && hi < CUTOFF {
        seq![trunc_div(lo + hi, 2)]
    } else if trunc_div(lo + hi, 2) > CUTOFF {
        let v = trunc_div((lo - 50) + (hi - 50), 4);
        if 40 < v && v < 60 {
            seq![v + 25, v - 25]
        } else {
            seq![v, v]
        }
    } else if lo > CUTOFF {
        seq![hi, lo - hi - 50]
    } else {
        seq![lo]
    }
}

pub open spec fn cleaned(t: Seq<(i64, i64)>) -> Seq<int>
    decreases t.len(),
{
    if t.len() == 0 {
        Seq::<int>::empty()
    } else {
        cleaned(t.drop_last()) + clean_pair(t.last().0 as int, t.last().1 as int)
    }
}

/// A bit length above 50 microseconds is a one.
pub open spec fn bits_value(bits: Seq<int>) -> int
    decreases bits.len(),
{
    if bits.len() == 0 {
        0
    } else {
        bits_value(bits.drop_last()) * 2 + (if bits.last() > 50 {
            1int
        } else {
            0int
        })
    }
}

/// Byte `i` of the frame formed by the last forty bit lengths.
pub open spec fn frame_byte(c: Seq<int>, i: int) -> int {
    let start = c.len() - 40 + 8 * i;
    bits_value(c.subrange(start, start + 8))
}

/// The reply a sequence of pulse timings decodes to: humidity and
/// temperature in tenths, the temperature negative when the sign bit of the
/// third byte is set; or why it does not decode.
pub open spec fn decode(t: Seq<(i64, i64)>) -> Result<(int, int), Errors> {
    let c = cleaned(t);
    if c.len() < 40 {
        Err(Errors::Timeout((t.len() % 256) as u8))
    } else {
        let b0 = frame_byte(c, 0);
        let b1 = frame_byte(c, 1);
        let b2 = frame_byte(c, 2);
        let b3 = frame_byte(c, 3);
        let b4 = frame_byte(c, 4);
        let h = b0 * 256 + b1;
        let tm = (b2 % 128) * 256 + b3;
        if (b0 + b1 + b2 + b3) % 256 != b4 {
            Err(Errors::Checksum)
        } else if b2 >= 128 {
            Ok((h, -tm))
        } else {
            Ok((h, tm))
        }
    }
}

pub open spec fn pulses_bounded(t: Seq<(i64, i64)>) -> bool {
    forall|i: int|
        0 <= i < t.len() ==> -PULSE_BOUND <= (#[trigger] t[i]).0 <= PULSE_BOUND && -PULSE_BOUND
            <= t[i].1 <= PULSE_BOUND
}

fn tdiv(a: i64, d: i64) -> (r: i64)
    requires
        -4 * PULSE_BOUND <= a <= 4 * PULSE_BOUND,
        1 <= d <= 4,
    ensures
        r == trunc_div(a as int, d as int),
{
    if a >= 0 {
        ((a as u64) / (d as u64)) as i64
    } else {
        -((((-a) as u64) / (d as u64)) as i64)
    }
}

proof fn lemma_bits_bound(bits: Seq<int>)
    ensures
        0 <= bits_value(bits) < pow2(bits.len()),
    decreases bits.len(),
{
    if bits.len() > 0 {
        lemma_bits_bound(bits.drop_last());
    }
}

pub open spec fn pow2(n: nat) -> int
    decreases n,
{
    if n == 0 {
        1
    } else {
        2 * pow2((n - 1) as nat)
    }
}

proof fn lemma_pow2_monotone(a: nat, b: nat)
    requires
        a <= b,
    ensures
        1 <= pow2(a) <= pow2(b),
    decreases b,
{
    if b > 0 {
        if a < b {
            lemma_pow2_monotone(a, (b - 1) as nat);
        } else {
            lemma_pow2_monotone(0, (b - 1) as nat);
        }
    }
}

proof fn lemma_pow2_small(k: nat)
    requires
        k <= 8,
    ensures
        1 <= pow2(k) <= 256,
        k < 8 ==> pow2(k) <= 128,
{
    reveal_with_fuel(pow2, 9);
    if k < 8 {
        lemma_pow2_monotone(k, 7);
    } else {
        lemma_pow2_monotone(k, 8);
    }
}

/// Reads the byte formed by the eight bit lengths from `start`.
fn read_byte(c: &Vec<i64>, start: usize) -> (r: u8)
    requires
        start + 8 <= c@.len(),
    ensures
        r as int == bits_value(Seq::new(c@.len(), |k: int| c@[k] as int).subrange(
            start as int,
            start + 8,
        )),
{
    let ghost cv = Seq::new(c@.len(), |k: int| c@[k] as int);
    let len = c.len();
    let mut b: u64 = 0;
    let mut k: usize = 0;
    while k < 8
        invariant
            start + 8 <= c@.len(),
            len == c@.len(),
            cv == Seq::new(c@.len(), |q: int| c@[q] as int),
            k <= 8,
            b as int == bits_value(cv.subrange(start as int, start + k)),
            b < pow2(k as nat),
        decreases 8 - k,
    {
        proof {
            let u = cv.subrange(start as int, start + k + 1);
            assert(u.drop_last() =~= cv.subrange(start as int, start + k));
            assert(u.last() == c@[start + k] as int);
        }
        proof {
            lemma_pow2_small(k as nat);
        }
        let bit: u64 = if c[start + k] > 50 {
            1
        } else {
            0
        };
        b = b * 2 + bit;
        k = k + 1;
    }
    proof {
        lemma_pow2_small(8);
    }
    b as u8
}

impl Reading {
    /// Decodes a reply from its (low, high) pulse timings in microseconds.
    pub fn from_pulses(timings: &Vec<(i64, i64)>) -> (r: Result<Reading, Errors>)
        requires
            pulses_bounded(timings@),
        ensures
            match decode(timings@) {
                Ok((h, t)) => r == Ok::<Reading, Errors>(
                    Reading { humidity_tenths: h as u16, temperature_tenths: t as i16 },
                ),
                Err(e) => r == Err::<Reading, Errors>(e),
            },
            r matches Ok(v) ==> decode(timings@) == Ok::<(int, int), Errors>(
                (v.humidity_tenths as int, v.temperature_tenths as int),
            ),
    {
        let mut c: Vec<i64> = Vec::new();
        let mut i: usize = 0;
        while i < timings.len()
            invariant
                i <= timings@.len(),
                pulses_bounded(timings@),
                Seq::new(c@.len(), |k: int| c@[k] as int) == cleaned(timings@.subrange(0, i as int)),
            decreases timings@.len() - i,
        {
            let (lo, hi) = timings[i];
            let ghost pre = timings@.subrange(0, i as int);
            let ghost prev = Seq::new(c@.len(), |k: int| c@[k] as int);
            proof {
                let u = timings@.subrange(0, i + 1);
                assert(u.drop_last() =~= pre);
                assert(u.last() == timings@[i as int]);
                assert(-PULSE_BOUND <= timings@[i as int].0 <= PULSE_BOUND);
            }
            let ghost cp = clean_pair(lo as int, hi as int);
            if lo < CUTOFF && hi < CUTOFF {
                c.push(tdiv(lo + hi, 2));
                proof {
                    assert(Seq::new(c@.len(), |k: int| c@[k] as int) =~= prev + cp);
                }
            } else if tdiv(lo + hi, 2) > CUTOFF {
                let v = tdiv((lo - 50) + (hi - 50), 4);
                if 40 < v && v < 60 {
                    c.push(v + 25);
                    c.push(v - 25);
                } else {
                    c.push(v);
                    c.push(v);
                }
                proof {
                    assert(Seq::new(c@.len(), |k: int| c@[k] as int) =~= prev + cp);
                }
            } else if lo > CUTOFF {
                c.push(hi);
                c.push(lo - hi - 50);
                proof {
                    assert(Seq::new(c@.len(), |k: int| c@[k] as int) =~= prev + cp);
                }
            } else {
                c.push(lo);
                proof {
                    assert(Seq::new(c@.len(), |k: int| c@[k] as int) =~= prev + cp);
                }
            }
            i = i + 1;
        }
        proof {
            assert(timings@.subrange(0, timings@.len() as int) =~= timings@);
        }
        let n = c.len();
        if n < 40 {
            return Err(Errors::Timeout((timings.len() % 256) as u8));
        }
        let b0 = read_byte(&c, n - 40);
        let b1 = read_byte(&c, n - 32);
        let b2 = read_byte(&c, n - 24);
        let b3 = read_byte(&c, n - 16);
        let b4 = read_byte(&c, n - 8);
        let actual = ((b0 as u64 + b1 as u64 + b2 as u64 + b3 as u64) % 256) as u8;
        if actual != b4 {
            return Err(Errors::Checksum);
        }
        let h: u64 = b0 as u64 * 256 + b1 as u64;
        let t: i16 = ((b2 as u64 % 128) * 256 + b3 as u64) as i16;
        let temperature_tenths: i16 = if b2 >= 128 {
            -t
        } else {
            t
        };
        Ok(Reading { humidity_tenths: h as u16, temperature_tenths })
    }
}

} // verus!
