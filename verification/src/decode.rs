//! The record decoder.
//!
//! The input is a compact binary record in CBOR form: a definite-length
//! map with integer keys 0–7 in ascending order, holding the sample
//! array (each sample itself a map with keys 0–2), the time window, the
//! policy bounds, and the three byte strings. Definite-length headers of
//! any width are accepted; indefinite lengths, missing or re-ordered
//! keys, truncated buffers, and out-of-range values all fail, uniformly,
//! with no partial result.

use vstd::prelude::*;
use crate::record::RunInput;
use crate::record::RunInputV;
use crate::record::Sample;

verus! {

/// A parsed CBOR data-item header at position `i`: the major type, the
/// attached value, and the position just past the header. `None` on a
/// truncated or indefinite-length header.
pub open spec fn head_s(b: Seq<u8>, i: int) -> Option<(int, int, int)> {
    if !(0 <= i < b.len()) {
        None
    } else {
        let major = (b[i] as int) / 32;
        let ad = (b[i] as int) % 32;
        if ad < 24 {
            Some((major, ad, i + 1))
        } else if ad == 24 && b.len() - i >= 2 {
            Some((major, b[i + 1] as int, i + 2))
        } else if ad == 25 && b.len() - i >= 3 {
            Some((major, (b[i + 1] as int) * 0x100 + (b[i + 2] as int), i + 3))
        } else if ad == 26 && b.len() - i >= 5 {
            Some(
                (
                    major,
                    (((b[i + 1] as int) * 0x100 + (b[i + 2] as int)) * 0x100 + (b[i + 3] as int))
                        * 0x100 + (b[i + 4] as int),
                    i + 5,
                ),
            )
        } else if ad == 27 && b.len() - i >= 9 {
            Some(
                (
                    major,
                    (((((((b[i + 1] as int) * 0x100 + (b[i + 2] as int)) * 0x100 + (b[i
                        + 3] as int)) * 0x100 + (b[i + 4] as int)) * 0x100 + (b[i + 5] as int))
                        * 0x100 + (b[i + 6] as int)) * 0x100 + (b[i + 7] as int)) * 0x100 + (b[i
                        + 8] as int),
                    i + 9,
                ),
            )
        } else {
            None
        }
    }
}

/// The view of an executable header-parse result.
pub open spec fn head_rv(r: Option<(u8, u64, usize)>) -> Option<(int, int, int)> {
    match r {
        None => None,
        Some((m, v, n)) => Some((m as int, v as int, n as int)),
    }
}

/// Parses one CBOR header.
pub fn head(b: &[u8], i: usize) -> (r: Option<(u8, u64, usize)>)
    ensures
        head_rv(r) == head_s(b@, i as int),
        r is Some ==> i < r.unwrap().2 <= b@.len(),
{
    if i >= b.len() {
        return None;
    }
    let byte = b[i];
    let major = byte / 32;
    let ad = byte % 32;
    if ad < 24 {
        Some((major, ad as u64, i + 1))
    } else if ad == 24 && b.len() - i >= 2 {
        Some((major, b[i + 1] as u64, i + 2))
    } else if ad == 25 && b.len() - i >= 3 {
        Some((major, (b[i + 1] as u64) * 0x100 + (b[i + 2] as u64), i + 3))
    } else if ad == 26 && b.len() - i >= 5 {
        let v = (((b[i + 1] as u64) * 0x100 + (b[i + 2] as u64)) * 0x100 + (b[i + 3] as u64))
            * 0x100 + (b[i + 4] as u64);
        Some((major, v, i + 5))
    } else if ad == 27 && b.len() - i >= 9 {
        let hi = ((b[i + 1] as u64) * 0x100 + (b[i + 2] as u64)) * 0x100 + (b[i + 3] as u64);
        let mid = ((hi * 0x100 + (b[i + 4] as u64)) * 0x100 + (b[i + 5] as u64)) * 0x100 + (b[i
            + 6] as u64);
        let v = (mid * 0x100 + (b[i + 7] as u64)) * 0x100 + (b[i + 8] as u64);
        Some((major, v, i + 9))
    } else {
        None
    }
}

/// An unsigned integer item (major type 0) at position `i`: its value
/// and the following position.
pub open spec fn u64_s(b: Seq<u8>, i: int) -> Option<(int, int)> {
    match head_s(b, i) {
        Some((m, v, n)) => if m == 0 {
            Some((v, n))
        } else {
            None
        },
        None => None,
    }
}

/// The view of an executable unsigned-parse result.
pub open spec fn u64_rv(r: Option<(u64, usize)>) -> Option<(int, int)> {
    match r {
        None => None,
        Some((v, n)) => Some((v as int, n as int)),
    }
}

/// Parses an unsigned integer item.
pub fn parse_u64(b: &[u8], i: usize) -> (r: Option<(u64, usize)>)
    ensures
        u64_rv(r) == u64_s(b@, i as int),
        r is Some ==> i < r.unwrap().1 <= b@.len(),
{
    match head(b, i) {
        Some((m, v, n)) => if m == 0 {
            Some((v, n))
        } else {
            None
        },
        None => None,
    }
}

/// A signed integer item fitting `i32` (major type 0 or 1) at position
/// `i`. A negative header value `v` denotes `-1 - v`.
pub open spec fn i32_s(b: Seq<u8>, i: int) -> Option<(int, int)> {
    match head_s(b, i) {
        Some((m, v, n)) => if m == 0 && v <= i32::MAX {
            Some((v, n))
        } else if m == 1 && v <= i32::MAX {
            Some((-1 - v, n))
        } else {
            None
        },
        None => None,
    }
}

/// The view of an executable signed-parse result.
pub open spec fn i32_rv(r: Option<(i32, usize)>) -> Option<(int, int)> {
    match r {
        None => None,
        Some((v, n)) => Some((v as int, n as int)),
    }
}

/// Parses a signed integer item fitting `i32`.
pub fn parse_i32(b: &[u8], i: usize) -> (r: Option<(i32, usize)>)
    ensures
        i32_rv(r) == i32_s(b@, i as int),
        r is Some ==> i < r.unwrap().1 <= b@.len(),
{
    match head(b, i) {
        Some((m, v, n)) => if m == 0 && v <= i32::MAX as u64 {
            Some((v as i32, n))
        } else if m == 1 && v <= i32::MAX as u64 {
            Some((-1i32 - (v as i32), n))
        } else {
            None
        },
        None => None,
    }
}

/// A byte-string item (major type 2) at position `i`: its contents and
/// the following position.
pub open spec fn bytes_s(b: Seq<u8>, i: int) -> Option<(Seq<u8>, int)> {
    match head_s(b, i) {
        Some((m, v, n)) => if m == 2 && n + v <= b.len() {
            Some((b.subrange(n, n + v), n + v))
        } else {
            None
        },
        None => None,
    }
}

/// The view of an executable byte-string-parse result.
pub open spec fn bytes_rv(r: Option<(Vec<u8>, usize)>) -> Option<(Seq<u8>, int)> {
    match r {
        None => None,
        Some((v, n)) => Some((v@, n as int)),
    }
}

/// Parses a byte-string item into an owned vector.
pub fn parse_bytes(b: &[u8], i: usize) -> (r: Option<(Vec<u8>, usize)>)
    ensures
        bytes_rv(r) == bytes_s(b@, i as int),
        r is Some ==> i < r.unwrap().1 <= b@.len(),
{
    match head(b, i) {
        Some((m, v, n)) => {
            if m == 2 && v <= (b.len() - n) as u64 {
                let end = n + (v as usize);
                let contents = vstd::slice::slice_to_vec(&b[n..end]);
                Some((contents, end))
            } else {
                None
            }
        },
        None => None,
    }
}

/// The position after an unsigned-integer key with the exact value `k`,
/// or `None` if the item at `i` is not that key.
pub open spec fn key_s(b: Seq<u8>, i: int, k: int) -> Option<int> {
    match u64_s(b, i) {
        Some((v, n)) => if v == k {
            Some(n)
        } else {
            None
        },
        None => None,
    }
}

/// The view of an executable key-parse result.
pub open spec fn key_rv(r: Option<usize>) -> Option<int> {
    match r {
        None => None,
        Some(n) => Some(n as int),
    }
}

/// Consumes the map key `k`.
pub fn expect_key(b: &[u8], i: usize, k: u64) -> (r: Option<usize>)
    ensures
        key_rv(r) == key_s(b@, i as int, k as int),
        r is Some ==> i < r.unwrap() <= b@.len(),
{
    match parse_u64(b, i) {
        Some((v, n)) => if v == k {
            Some(n)
        } else {
            None
        },
        None => None,
    }
}

/// One GPS sample at position `i`: a map of three entries keyed 0 (the
/// timestamp), 1 (the latitude) and 2 (the longitude).
pub open spec fn sample_s(b: Seq<u8>, i: int) -> Option<(Sample, int)> {
    match head_s(b, i) {
        Some((m, v, p0)) => if m == 5 && v == 3 {
            match key_s(b, p0, 0) {
                Some(p1) => match u64_s(b, p1) {
                    Some((t, p2)) => match key_s(b, p2, 1) {
                        Some(p3) => match i32_s(b, p3) {
                            Some((lat, p4)) => match key_s(b, p4, 2) {
                                Some(p5) => match i32_s(b, p5) {
                                    Some((lon, p6)) => Some(
                                        (
                                            Sample {
                                                t: t as u64,
                                                lat_microdeg: lat as i32,
                                                lon_microdeg: lon as i32,
                                            },
                                            p6,
                                        ),
                                    ),
                                    None => None,
                                },
                                None => None,
                            },
                            None => None,
                        },
                        None => None,
                    },
                    None => None,
                },
                None => None,
            }
        } else {
            None
        },
        None => None,
    }
}

/// The view of an executable sample-parse result.
pub open spec fn sample_rv(r: Option<(Sample, usize)>) -> Option<(Sample, int)> {
    match r {
        None => None,
        Some((s, n)) => Some((s, n as int)),
    }
}

/// Parses one GPS sample.
pub fn parse_sample(b: &[u8], i: usize) -> (r: Option<(Sample, usize)>)
    ensures
        sample_rv(r) == sample_s(b@, i as int),
        r is Some ==> i < r.unwrap().1 <= b@.len(),
{
    let (m, v, p0) = match head(b, i) {
        Some(h) => h,
        None => return None,
    };
    if !(m == 5 && v == 3) {
        return None;
    }
    let p1 = match expect_key(b, p0, 0) {
        Some(p) => p,
        None => return None,
    };
    let (t, p2) = match parse_u64(b, p1) {
        Some(x) => x,
        None => return None,
    };
    let p3 = match expect_key(b, p2, 1) {
        Some(p) => p,
        None => return None,
    };
    let (lat, p4) = match parse_i32(b, p3) {
        Some(x) => x,
        None => return None,
    };
    let p5 = match expect_key(b, p4, 2) {
        Some(p) => p,
        None => return None,
    };
    let (lon, p6) = match parse_i32(b, p5) {
        Some(x) => x,
        None => return None,
    };
    Some((Sample { t, lat_microdeg: lat, lon_microdeg: lon }, p6))
}

/// `cnt` consecutive samples starting at position `i`: the sequence and
/// the position just past it.
pub open spec fn samples_s(b: Seq<u8>, i: int, cnt: int) -> Option<(Seq<Sample>, int)>
    decreases cnt,
{
    if cnt <= 0 {
        Some((Seq::empty(), i))
    } else {
        match sample_s(b, i) {
            Some((s, p)) => match samples_s(b, p, cnt - 1) {
                Some((rest, q)) => Some((seq![s] + rest, q)),
                None => None,
            },
            None => None,
        }
    }
}

/// The view of an executable sample-sequence-parse result.
pub open spec fn samples_rv(r: Option<(Vec<Sample>, usize)>) -> Option<(Seq<Sample>, int)> {
    match r {
        None => None,
        Some((s, n)) => Some((s@, n as int)),
    }
}

/// Parses `cnt` consecutive samples.
pub fn parse_samples(b: &[u8], i: usize, cnt: u64) -> (r: Option<(Vec<Sample>, usize)>)
    requires
        i <= b@.len(),
    ensures
        samples_rv(r) == samples_s(b@, i as int, cnt as int),
        r is Some ==> i <= r.unwrap().1 <= b@.len(),
{
    let mut acc: Vec<Sample> = Vec::new();
    let mut p: usize = i;
    let mut j: u64 = 0;
    while j < cnt
        invariant
            0 <= j <= cnt,
            i <= p <= b@.len(),
            ({
                let whole = samples_s(b@, i as int, cnt as int);
                let left = samples_s(b@, p as int, cnt - j);
                match left {
                    None => whole is None,
                    Some((rest, q)) => whole == Some((acc@ + rest, q)),
                }
            }),
        decreases cnt - j,
    {
        let (s, p2) = match parse_sample(b, p) {
            Some(x) => x,
            None => {
                return None;
            },
        };
        acc.push(s);
        proof {
            let whole = samples_s(b@, i as int, cnt as int);
            let left2 = samples_s(b@, p2 as int, cnt - j - 1);
            match left2 {
                None => {
                    assert(samples_s(b@, p as int, cnt - j) is None);
                },
                Some((rest2, q2)) => {
                    assert(samples_s(b@, p as int, cnt - j) == Some(
                        (seq![s] + rest2, q2),
                    ));
                    assert(acc@ + rest2 =~= (acc@.drop_last() + (seq![s] + rest2)));
                },
            }
        }
        p = p2;
        j = j + 1;
    }
    proof {
        assert(samples_s(b@, p as int, 0) == Some((Seq::<Sample>::empty(), p as int)));
        assert(acc@ + Seq::<Sample>::empty() =~= acc@);
    }
    Some((acc, p))
}

/// The GPS field: an array header followed by its samples.
pub open spec fn gps_s(b: Seq<u8>, i: int) -> Option<(Seq<Sample>, int)> {
    match head_s(b, i) {
        Some((m, cnt, p)) => if m == 4 {
            samples_s(b, p, cnt)
        } else {
            None
        },
        None => None,
    }
}

/// Parses the GPS sample array.
pub fn parse_gps(b: &[u8], i: usize) -> (r: Option<(Vec<Sample>, usize)>)
    ensures
        samples_rv(r) == gps_s(b@, i as int),
        r is Some ==> r.unwrap().1 <= b@.len(),
{
    match head(b, i) {
        Some((m, cnt, p)) => if m == 4 {
            parse_samples(b, p, cnt)
        } else {
            None
        },
        None => None,
    }
}

/// The whole submission record starting at position 0: a map of eight
/// entries keyed 0–7 in ascending order. Trailing bytes are ignored.
pub open spec fn run_input_s(b: Seq<u8>) -> Option<RunInputV> {
    match head_s(b, 0) {
        Some((m, v, p0)) => if m == 5 && v == 8 {
            match key_s(b, p0, 0) {
                Some(k0) => match gps_s(b, k0) {
                    Some((gps, p1)) => match key_s(b, p1, 1) {
                        Some(k1) => match u64_s(b, k1) {
                            Some((start_time, p2)) => match key_s(b, p2, 2) {
                                Some(k2) => match u64_s(b, k2) {
                                    Some((end_time, p3)) => match key_s(b, p3, 3) {
                                        Some(k3) => match u64_s(b, k3) {
                                            Some((max_elapsed, p4)) => if max_elapsed
                                                <= u32::MAX {
                                                match key_s(b, p4, 4) {
                                                    Some(k4) => match u64_s(b, k4) {
                                                        Some((max_speed, p5)) => if max_speed
                                                            <= u32::MAX {
                                                            match key_s(b, p5, 5) {
                                                                Some(k5) => match bytes_s(b, k5) {
                                                                    Some((blob, p6)) => match key_s(
                                                                        b,
                                                                        p6,
                                                                        6,
                                                                    ) {
                                                                        Some(k6) => match bytes_s(
                                                                            b,
                                                                            k6,
                                                                        ) {
                                                                            Some((sig, p7)) => match key_s(
                                                                                b,
                                                                                p7,
                                                                                7,
                                                                            ) {
                                                                                Some(k7) => match bytes_s(
                                                                                    b,
                                                                                    k7,
                                                                                ) {
                                                                                    Some(
                                                                                        (pubkey, _p8),
                                                                                    ) => Some(
                                                                                        RunInputV {
                                                                                            gps,
                                                                                            start_time: start_time as u64,
                                                                                            end_time: end_time as u64,
                                                                                            max_elapsed_sec: max_elapsed as u32,
                                                                                            max_speed_mps: max_speed as u32,
                                                                                            blob,
                                                                                            sig,
                                                                                            pubkey,
                                                                                        },
                                                                                    ),
                                                                                    None => None,
                                                                                },
                                                                                None => None,
                                                                            },
                                                                            None => None,
                                                                        },
                                                                        None => None,
                                                                    },
                                                                    None => None,
                                                                },
                                                                None => None,
                                                            }
                                                        } else {
                                                            None
                                                        },
                                                        None => None,
                                                    },
                                                    None => None,
                                                }
                                            } else {
                                                None
                                            },
                                            None => None,
                                        },
                                        None => None,
                                    },
                                    None => None,
                                },
                                None => None,
                            },
                            None => None,
                        },
                        None => None,
                    },
                    None => None,
                },
                None => None,
            }
        } else {
            None
        },
        None => None,
    }
}

/// Decodes a submission record from raw bytes. `None` on any structural
/// mismatch, with no partial result.
pub fn decode_run_input(b: &[u8]) -> (r: Option<RunInput>)
    ensures
        r is Some <==> run_input_s(b@) is Some,
        r is Some ==> r.unwrap()@ == run_input_s(b@).unwrap(),
{
    let (m, v, p0) = match head(b, 0) {
        Some(h) => h,
        None => return None,
    };
    if !(m == 5 && v == 8) {
        return None;
    }
    let k0 = match expect_key(b, p0, 0) {
        Some(p) => p,
        None => return None,
    };
    let (gps, p1) = match parse_gps(b, k0) {
        Some(x) => x,
        None => return None,
    };
    let k1 = match expect_key(b, p1, 1) {
        Some(p) => p,
        None => return None,
    };
    let (start_time, p2) = match parse_u64(b, k1) {
        Some(x) => x,
        None => return None,
    };
    let k2 = match expect_key(b, p2, 2) {
        Some(p) => p,
        None => return None,
    };
    let (end_time, p3) = match parse_u64(b, k2) {
        Some(x) => x,
        None => return None,
    };
    let k3 = match expect_key(b, p3, 3) {
        Some(p) => p,
        None => return None,
    };
    let (max_elapsed, p4) = match parse_u64(b, k3) {
        Some(x) => x,
        None => return None,
    };
    if !(max_elapsed <= u32::MAX as u64) {
        return None;
    }
    let k4 = match expect_key(b, p4, 4) {
        Some(p) => p,
        None => return None,
    };
    let (max_speed, p5) = match parse_u64(b, k4) {
        Some(x) => x,
        None => return None,
    };
    if !(max_speed <= u32::MAX as u64) {
        return None;
    }
    let k5 = match expect_key(b, p5, 5) {
        Some(p) => p,
        None => return None,
    };
    let (blob, p6) = match parse_bytes(b, k5) {
        Some(x) => x,
        None => return None,
    };
    let k6 = match expect_key(b, p6, 6) {
        Some(p) => p,
        None => return None,
    };
    let (sig, p7) = match parse_bytes(b, k6) {
        Some(x) => x,
        None => return None,
    };
    let k7 = match expect_key(b, p7, 7) {
        Some(p) => p,
        None => return None,
    };
    let (pubkey, _p8) = match parse_bytes(b, k7) {
        Some(x) => x,
        None => return None,
    };
    let ri = RunInput {
        gps,
        start_time,
        end_time,
        max_elapsed_sec: max_elapsed as u32,
        max_speed_mps: max_speed as u32,
        blob,
        sig,
        pubkey,
    };
    proof {
        assert(ri@ =~= run_input_s(b@).unwrap());
    }
    Some(ri)
}

} // verus!
