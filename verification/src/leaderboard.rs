//! Checks on submitted leaderboard runs: the replay must decode, and the
//! score it records must be the score claimed.

use vstd::prelude::*;
use vstd::string::StringSliceAdditionalSpecFns;

verus! {

/// The value of four bytes read as a little-endian two's-complement `i32`.
pub open spec fn le_i32(b0: u8, b1: u8, b2: u8, b3: u8) -> int {
    let u = b0 as int + 256 * (b1 as int) + 65536 * (b2 as int) + 16777216 * (b3 as int);
    if u < 0x8000_0000 {
        u
    } else {
        u - 0x1_0000_0000
    }
}

/// The score recorded at the start of a replay: its first four bytes as a
/// little-endian `i32`, or nothing when the replay is shorter than that.
pub open spec fn replay_score(replay: Seq<u8>) -> Option<i32> {
    if replay.len() < 4 {
        None
    } else {
        Some(le_i32(replay[0], replay[1], replay[2], replay[3]) as i32)
    }
}

pub fn verify_score(replay: &[u8]) -> (r: Option<i32>)
    ensures
        r == replay_score(replay@),
        r matches Some(v) ==> v as int == le_i32(replay@[0], replay@[1], replay@[2], replay@[3]),
{
    if replay.len() < 4 {
        return None;
    }
    let u: u32 = replay[0] as u32 + 256 * (replay[1] as u32) + 65536 * (replay[2] as u32)
        + 16777216 * (replay[3] as u32);
    let v: i32 = if u < 0x8000_0000 {
        u as i32
    } else {
        ((u - 0x8000_0000) as i32) + i32::MIN
    };
    Some(v)
}

/// The four little-endian bytes of an `i32` (`i32::to_le_bytes`).
pub open spec fn le_bytes(p: i32) -> Seq<u8> {
    let u: int = if p >= 0 {
        p as int
    } else {
        p as int + 0x1_0000_0000
    };
    seq![(u % 256) as u8, ((u / 256) % 256) as u8, ((u / 65536) % 256) as u8, (u / 16777216) as u8]
}

/// A replay that starts with the little-endian bytes of a score records that
/// score, whatever follows.
pub proof fn law_replay_score_round_trip(p: i32, rest: Seq<u8>)
    ensures
        replay_score(le_bytes(p) + rest) == Some(p),
{
    let u: int = if p >= 0 {
        p as int
    } else {
        p as int + 0x1_0000_0000
    };
    assert(0 <= u < 0x1_0000_0000);
    let s = le_bytes(p) + rest;
    assert(s[0] == (u % 256) as u8);
    assert(s[1] == ((u / 256) % 256) as u8);
    assert(s[2] == ((u / 65536) % 256) as u8);
    assert(s[3] == (u / 16777216) as u8);
    assert((u % 256) + 256 * ((u / 256) % 256) + 65536 * ((u / 65536) % 256) + 16777216 * (u / 16777216) == u) by (nonlinear_arith)
        requires
            0 <= u < 0x1_0000_0000,
    {
        assert(u == 256 * (u / 256) + u % 256);
        assert(u / 256 == 256 * (u / 65536) + (u / 256) % 256) by {
            assert(u / 65536 == (u / 256) / 256);
        }
        assert(u / 65536 == 256 * (u / 16777216) + (u / 65536) % 256) by {
            assert(u / 16777216 == (u / 65536) / 256);
        }
    }
    assert(u / 16777216 < 256) by (nonlinear_arith)
        requires
            0 <= u < 0x1_0000_0000,
    ;
}

/// Name of what `base64::decode` (standard alphabet, padded) gives for an
/// input, `None` when it refuses the input.
pub uninterp spec fn base64_decoded(input: Seq<u8>) -> Option<Seq<u8>>;

/// `base64::decode` (the standard engine).
#[verifier::external_body]
fn decode_base64(input: &[u8]) -> (r: Option<Vec<u8>>)
    ensures
        match r {
            Some(v) => base64_decoded(input@) == Some(v@),
            None => base64_decoded(input@) is None,
        },
{
    #[allow(deprecated)]
    match base64::decode(input) {
        Ok(bytes) => Some(bytes),
        Err(_) => None,
    }
}

/// The verdict on a submitted run.
#[derive(Debug)]
pub enum RunCheck {
    /// The replay is not valid base64 (answer 400).
    MalformedReplay,
    /// The replay does not record the claimed score (answer 400, and report
    /// a failed verification).
    ScoreMismatch,
    /// The run may be stored with these replay bytes.
    Accepted(Vec<u8>),
}

/// Checks a submitted run: the base64 replay, and the claimed points.
pub fn check_run(replay: &str, points: i32) -> (r: RunCheck)
    ensures
        match base64_decoded(replay.spec_bytes()) {
            None => r is MalformedReplay,
            Some(bytes) => if replay_score(bytes) == Some(points) {
                r matches RunCheck::Accepted(v) && v@ == bytes
            } else {
                r is ScoreMismatch
            },
        },
{
    match decode_base64(replay.as_bytes()) {
        None => RunCheck::MalformedReplay,
        Some(bytes) => {
            match verify_score(bytes.as_slice()) {
                Some(v) => if v == points {
                    RunCheck::Accepted(bytes)
                } else {
                    RunCheck::ScoreMismatch
                },
                None => RunCheck::ScoreMismatch,
            }
        },
    }
}

} // verus!
