//! End-to-end scenarios over the whole verification pipeline: raw bytes
//! in, journal bytes out.

use k256::ecdsa::signature::hazmat::PrehashSigner;
use k256::elliptic_curve::sec1::ToSec1Point;
use zkrun::run_verification;

fn hd(major: u8, v: u64) -> Vec<u8> {
    let mut out = vec![(major << 5) | 27u8];
    out.extend_from_slice(&v.to_be_bytes());
    out
}

fn key(k: u8) -> Vec<u8> {
    vec![k]
}

fn enc_i32(v: i32) -> Vec<u8> {
    if v >= 0 {
        hd(0, v as u64)
    } else {
        hd(1, (-1i64 - v as i64) as u64)
    }
}

fn enc_sample(t: u64, lat: i32, lon: i32) -> Vec<u8> {
    let mut out = vec![0xa3u8];
    out.extend(key(0));
    out.extend(hd(0, t));
    out.extend(key(1));
    out.extend(enc_i32(lat));
    out.extend(key(2));
    out.extend(enc_i32(lon));
    out
}

#[allow(clippy::too_many_arguments)]
fn record(
    samples: &[(u64, i32, i32)],
    start: u64,
    end: u64,
    max_elapsed: u32,
    max_speed: u32,
    blob: &[u8],
    sig: &[u8],
    pubkey: &[u8],
) -> Vec<u8> {
    let mut out = vec![0xa8u8];
    out.extend(key(0));
    out.extend(hd(4, samples.len() as u64));
    for &(t, lat, lon) in samples {
        out.extend(enc_sample(t, lat, lon));
    }
    out.extend(key(1));
    out.extend(hd(0, start));
    out.extend(key(2));
    out.extend(hd(0, end));
    out.extend(key(3));
    out.extend(hd(0, max_elapsed as u64));
    out.extend(key(4));
    out.extend(hd(0, max_speed as u64));
    out.extend(key(5));
    out.extend(hd(2, blob.len() as u64));
    out.extend_from_slice(blob);
    out.extend(key(6));
    out.extend(hd(2, sig.len() as u64));
    out.extend_from_slice(sig);
    out.extend(key(7));
    out.extend(hd(2, pubkey.len() as u64));
    out.extend_from_slice(pubkey);
    out
}

/// A fixed key pair and a valid 65-byte signature over SHA-256 of `blob`.
fn sig_and_pubkey(blob: &[u8]) -> (Vec<u8>, Vec<u8>) {
    let sk = k256::ecdsa::SigningKey::from_slice(&[0x42u8; 32]).unwrap();
    let digest = <sha2::Sha256 as sha2::Digest>::digest(blob);
    let sig: k256::ecdsa::Signature = sk.sign_prehash(&digest).unwrap();
    let mut sig65 = sig.to_bytes().to_vec();
    sig65.push(0);
    let pubkey = sk.verifying_key().as_affine().to_sec1_point(false).as_bytes().to_vec();
    assert_eq!(sig65.len(), 65);
    assert_eq!(pubkey.len(), 65);
    (sig65, pubkey)
}

/// The canonical qualifying run: two equatorial samples 45 milli-degrees
/// of latitude apart (5003 m), 600 seconds apart.
fn valid_record() -> Vec<u8> {
    let blob = b"qualifying run";
    let (sig, pubkey) = sig_and_pubkey(blob);
    record(&[(0, 0, 0), (600, 45_000, 0)], 0, 600, 3600, 12, blob, &sig, &pubkey)
}

#[test]
fn end_to_end_accepted() {
    let blob = b"qualifying run";
    let journal = run_verification(&valid_record());
    assert_eq!(journal.len(), 57);
    assert_eq!(journal[0], 1u8);
    assert_eq!(&journal[1..5], &[0x00, 0x00, 0x02, 0x58]);
    let hash = <sha2::Sha256 as sha2::Digest>::digest(blob);
    assert_eq!(&journal[5..37], hash.as_slice());
    let (_, pubkey) = sig_and_pubkey(blob);
    let mut keccak = tiny_keccak::Keccak::v256();
    let mut out = [0u8; 32];
    tiny_keccak::Hasher::update(&mut keccak, &pubkey[1..]);
    tiny_keccak::Hasher::finalize(keccak, &mut out);
    assert_eq!(&journal[37..57], &out[12..]);
}

#[test]
fn determinism() {
    let input = valid_record();
    assert_eq!(run_verification(&input), run_verification(&input));
    let garbage = vec![0xffu8, 0x00, 0x17];
    assert_eq!(run_verification(&garbage), run_verification(&garbage));
    assert_eq!(run_verification(&garbage), vec![0u8]);
}

#[test]
fn signature_bit_flips_reject() {
    let input = valid_record();
    assert_eq!(run_verification(&input)[0], 1u8);
    // The record ends with [key7][header][pubkey: 65]; before that
    // [key6][header][sig: 65]. Headers are 9 bytes wide, keys 1 byte.
    let pubkey_pos = input.len() - 65;
    let sig_pos = pubkey_pos - 1 - 9 - 65;
    // Flip one bit in each of a few positions of the r || s part of sig.
    for &(off, bit) in &[(0usize, 0u8), (10, 3), (31, 7), (63, 1)] {
        let mut mutated = input.clone();
        mutated[sig_pos + off] ^= 1 << bit;
        assert_eq!(run_verification(&mutated), vec![0u8]);
    }
    // Flip one bit in a few positions of the public key.
    for &(off, bit) in &[(0usize, 0u8), (5, 4), (40, 2), (64, 6)] {
        let mut mutated = input.clone();
        mutated[pubkey_pos + off] ^= 1 << bit;
        assert_eq!(run_verification(&mutated), vec![0u8]);
    }
}

#[test]
fn sample_count_floor() {
    let blob = b"short";
    let (sig, pubkey) = sig_and_pubkey(blob);
    let zero = record(&[], 0, 600, 3600, 12, blob, &sig, &pubkey);
    assert_eq!(run_verification(&zero), vec![0u8]);
    let one = record(&[(0, 0, 0)], 0, 600, 3600, 12, blob, &sig, &pubkey);
    assert_eq!(run_verification(&one), vec![0u8]);
}

#[test]
fn time_order_rejects() {
    let blob = b"qualifying run";
    let (sig, pubkey) = sig_and_pubkey(blob);
    let equal = record(&[(600, 0, 0), (600, 45_000, 0)], 0, 600, 3600, 12, blob, &sig, &pubkey);
    assert_eq!(run_verification(&equal), vec![0u8]);
    let backwards = record(&[(600, 0, 0), (300, 45_000, 0)], 0, 600, 3600, 12, blob, &sig, &pubkey);
    assert_eq!(run_verification(&backwards), vec![0u8]);
}

#[test]
fn speed_boundary() {
    let blob = b"qualifying run";
    let (sig, pubkey) = sig_and_pubkey(blob);
    // 5003 m in 600 s: floor speed 8 m/s.
    let at_limit = record(&[(0, 0, 0), (600, 45_000, 0)], 0, 600, 3600, 8, blob, &sig, &pubkey);
    let j = run_verification(&at_limit);
    assert_eq!(j[0], 1u8);
    // The same segment against a limit of 7: floor speed is limit + 1.
    let over = record(&[(0, 0, 0), (600, 45_000, 0)], 0, 600, 3600, 7, blob, &sig, &pubkey);
    assert_eq!(run_verification(&over), vec![0u8]);
}

#[test]
fn distance_boundary() {
    let blob = b"qualifying run";
    let (sig, pubkey) = sig_and_pubkey(blob);
    // 44964 microdegrees of latitude: exactly 4999 m — one short.
    let short = record(&[(0, 0, 0), (600, 44_964, 0)], 0, 600, 3600, 12, blob, &sig, &pubkey);
    assert_eq!(run_verification(&short), vec![0u8]);
    // 44972 microdegrees: exactly 5000 m — qualifying.
    let enough = record(&[(0, 0, 0), (600, 44_972, 0)], 0, 600, 3600, 12, blob, &sig, &pubkey);
    assert_eq!(run_verification(&enough)[0], 1u8);
}

#[test]
fn elapsed_time_rejects() {
    let blob = b"qualifying run";
    let (sig, pubkey) = sig_and_pubkey(blob);
    let slow = record(&[(0, 0, 0), (4000, 45_000, 0)], 0, 4000, 3600, 12, blob, &sig, &pubkey);
    assert_eq!(run_verification(&slow), vec![0u8]);
}

#[test]
fn inverted_window_rejects() {
    let blob = b"qualifying run";
    let (sig, pubkey) = sig_and_pubkey(blob);
    let inverted = record(&[(0, 0, 0), (600, 45_000, 0)], 700, 600, 3600, 12, blob, &sig, &pubkey);
    assert_eq!(run_verification(&inverted), vec![0u8]);
}

#[test]
fn decode_robustness_truncation() {
    let input = valid_record();
    assert_eq!(run_verification(&input)[0], 1u8);
    for len in 0..input.len() {
        let truncated = &input[..len];
        assert_eq!(run_verification(truncated), vec![0u8]);
    }
}

#[test]
fn decode_robustness_missing_tag() {
    let blob = b"qualifying run";
    let (sig, pubkey) = sig_and_pubkey(blob);
    let good = record(&[(0, 0, 0), (600, 45_000, 0)], 0, 600, 3600, 12, blob, &sig, &pubkey);
    // Replace the key byte `3` with `9`: an unknown tag in place of a
    // required one.
    let mut bad = good.clone();
    let pos = bad.iter().position(|&b| b == 3u8).unwrap();
    bad[pos] = 9u8;
    assert_eq!(run_verification(&bad), vec![0u8]);
    // An empty buffer and a lone map header.
    assert_eq!(run_verification(&[]), vec![0u8]);
    assert_eq!(run_verification(&[0xa8]), vec![0u8]);
}

#[test]
fn minicbor_encoding_is_accepted() {
    let blob = b"qualifying run";
    let (sig, pubkey) = sig_and_pubkey(blob);
    let mut buf = [0u8; 512];
    let mut e = minicbor::Encoder::new(minicbor::encode::write::Cursor::new(&mut buf[..]));
    e.map(8).unwrap();
    e.u64(0).unwrap();
    e.array(2).unwrap();
    for &(t, lat, lon) in &[(0u64, 0i32, 0i32), (600, 45_000, 0)] {
        e.map(3).unwrap();
        e.u64(0).unwrap();
        e.u64(t).unwrap();
        e.u64(1).unwrap();
        e.i32(lat).unwrap();
        e.u64(2).unwrap();
        e.i32(lon).unwrap();
    }
    e.u64(1).unwrap();
    e.u64(0).unwrap();
    e.u64(2).unwrap();
    e.u64(600).unwrap();
    e.u64(3).unwrap();
    e.u64(3600).unwrap();
    e.u64(4).unwrap();
    e.u64(12).unwrap();
    e.u64(5).unwrap();
    e.bytes(blob).unwrap();
    e.u64(6).unwrap();
    e.bytes(&sig).unwrap();
    e.u64(7).unwrap();
    e.bytes(&pubkey).unwrap();
    let written = e.into_writer().position();
    let journal = run_verification(&buf[..written]);
    // The compact minicbor encoding and the wide hand encoding decode to
    // the same record and are owed the same journal.
    assert_eq!(journal, run_verification(&valid_record()));
    assert_eq!(journal[0], 1u8);
}
