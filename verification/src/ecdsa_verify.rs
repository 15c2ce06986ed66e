//! ECDSA verification requests over 64-bit limbs (secp256k1 and P-256): the
//! 160-byte request layout, the order in which the request is checked, and the
//! two-byte report that names the first check that failed.
use vstd::prelude::*;
use crate::bytes::{le_at, read_u64_le};

verus! {

/// Size in bytes of one verification request: twenty little-endian `u64` limbs.
pub const REQUEST_LEN: usize = 160;

/// The `i`-th little-endian `u64` limb of a request.
pub open spec fn input_limb(input: Seq<u8>, i: int) -> u64 {
    le_at(input, (8 * i) as nat, 8) as u64
}

/// `limbs` are the request limbs starting at limb index `first`.
pub open spec fn limbs_from(limbs: Seq<u64>, input: Seq<u8>, first: int) -> bool {
    forall|i: int| 0 <= i < limbs.len() ==> limbs[i] == input_limb(input, first + i)
}

/// One verification request: the message hash `z`, the signature `(r, s)` and
/// the public key `q` (x limbs then y limbs), limb 0 least significant.
pub struct EcdsaLimbs {
    pub z: [u64; 4],
    pub r: [u64; 4],
    pub s: [u64; 4],
    pub q: [u64; 8],
}

/// Reads the request: `z` from bytes 0..32, `r` from 32..64, `s` from 64..96
/// and `q` from 96..160; bytes past 160 are ignored. A shorter input is no
/// request.
pub fn decode_ecdsa_limbs(input: &[u8]) -> (res: Option<EcdsaLimbs>)
    ensures
        res is None <==> input@.len() < 160,
        res matches Some(l) ==> {
            &&& limbs_from(l.z@, input@, 0)
            &&& limbs_from(l.r@, input@, 4)
            &&& limbs_from(l.s@, input@, 8)
            &&& limbs_from(l.q@, input@, 12)
        },
{
    if input.len() < REQUEST_LEN {
        return None;
    }
    let mut w: Vec<u64> = Vec::new();
    let mut i: usize = 0;
    while i < 20
        invariant
            i <= 20,
            input@.len() >= 160,
            w@.len() == i,
            forall|j: int| 0 <= j < i ==> w@[j] == input_limb(input@, j),
        decreases 20 - i,
    {
        let v = read_u64_le(input, i * 8);
        w.push(v);
        i = i + 1;
    }
    let l = EcdsaLimbs {
        z: [w[0], w[1], w[2], w[3]],
        r: [w[4], w[5], w[6], w[7]],
        s: [w[8], w[9], w[10], w[11]],
        q: [w[12], w[13], w[14], w[15], w[16], w[17], w[18], w[19]],
    };
    assert(limbs_from(l.z@, input@, 0));
    assert(limbs_from(l.r@, input@, 4));
    assert(limbs_from(l.s@, input@, 8));
    assert(limbs_from(l.q@, input@, 12));
    Some(l)
}

/// Why a P-256 check failed.
#[derive(Clone, Copy, Debug, PartialEq, Eq, Structural)]
pub enum P256Error {
    InvalidFqElement,
    InvalidFrElement,
    NotOnCurve,
    QAtInfinity,
    ROrSZero,
    RxMismatch,
    InvalidGlvSignWord(u64),
}

/// The one-byte code of each error, 1 to 7 in declaration order.
pub open spec fn spec_err_code(e: P256Error) -> u8 {
    match e {
        P256Error::InvalidFqElement => 1,
        P256Error::InvalidFrElement => 2,
        P256Error::NotOnCurve => 3,
        P256Error::QAtInfinity => 4,
        P256Error::ROrSZero => 5,
        P256Error::RxMismatch => 6,
        P256Error::InvalidGlvSignWord(_) => 7,
    }
}

/// The one-byte code of an error.
pub fn err_code(e: &P256Error) -> (c: u8)
    ensures
        c == spec_err_code(*e),
        1 <= c <= 7,
{
    match e {
        P256Error::InvalidFqElement => 1,
        P256Error::InvalidFrElement => 2,
        P256Error::NotOnCurve => 3,
        P256Error::QAtInfinity => 4,
        P256Error::ROrSZero => 5,
        P256Error::RxMismatch => 6,
        P256Error::InvalidGlvSignWord(_) => 7,
    }
}

/// The checks of a request, in the order they are made: the three scalars are
/// parsed, then the public key, then the signature is verified.
#[derive(Clone, Copy, Debug, PartialEq, Eq, Structural)]
pub enum VerifyStage {
    MessageHash,
    SignatureR,
    SignatureS,
    PublicKey,
    Signature,
}

/// The report byte that names a stage when it fails.
pub open spec fn stage_byte(stage: VerifyStage) -> u8 {
    match stage {
        VerifyStage::Signature => 0x01,
        VerifyStage::MessageHash => 0x02,
        VerifyStage::SignatureR => 0x03,
        VerifyStage::SignatureS => 0x04,
        VerifyStage::PublicKey => 0x05,
    }
}

/// The stage that follows a successful one, if any.
pub open spec fn next_stage(stage: VerifyStage) -> Option<VerifyStage> {
    match stage {
        VerifyStage::MessageHash => Some(VerifyStage::SignatureR),
        VerifyStage::SignatureR => Some(VerifyStage::SignatureS),
        VerifyStage::SignatureS => Some(VerifyStage::PublicKey),
        VerifyStage::PublicKey => Some(VerifyStage::Signature),
        VerifyStage::Signature => None,
    }
}

/// What to do after a stage: run the next one, or stop with the report
/// `(stage, code)`.
#[derive(Clone, Copy, Debug, PartialEq, Eq, Structural)]
pub enum StageAction {
    Next(VerifyStage),
    Report(u8, u8),
}

/// The action that the outcome of a stage calls for: a failure stops with the
/// stage's byte and the error's code; a success moves on, and success of the
/// last stage reports `(0, 0)`, a valid signature.
pub open spec fn spec_after_stage(stage: VerifyStage, outcome: Result<(), P256Error>) -> StageAction {
    match outcome {
        Err(e) => StageAction::Report(stage_byte(stage), spec_err_code(e)),
        Ok(()) => match next_stage(stage) {
            Some(n) => StageAction::Next(n),
            None => StageAction::Report(0x00, 0x00),
        },
    }
}

/// The report of a stage that failed with `e`: the stage's byte and the
/// error's code.
pub fn failure_report(stage: VerifyStage, e: P256Error) -> (r: (u8, u8))
    ensures
        spec_after_stage(stage, Err(e)) == StageAction::Report(r.0, r.1),
{
    let b: u8 = match stage {
        VerifyStage::Signature => 0x01,
        VerifyStage::MessageHash => 0x02,
        VerifyStage::SignatureR => 0x03,
        VerifyStage::SignatureS => 0x04,
        VerifyStage::PublicKey => 0x05,
    };
    (b, err_code(&e))
}

/// The report once the signature itself has been checked: `(0, 0)` for a
/// valid signature, otherwise the signature stage's byte and the error's code.
pub fn verdict_report(outcome: Result<(), P256Error>) -> (r: (u8, u8))
    ensures
        spec_after_stage(VerifyStage::Signature, outcome) == StageAction::Report(r.0, r.1),
{
    match outcome {
        Ok(()) => (0x00, 0x00),
        Err(e) => failure_report(VerifyStage::Signature, e),
    }
}

/// Decides what follows the outcome of one stage of a P-256 verification.
pub fn after_stage(stage: VerifyStage, outcome: Result<(), P256Error>) -> (a: StageAction)
    ensures
        a == spec_after_stage(stage, outcome),
{
    match outcome {
        Err(e) => {
            let (b, c) = failure_report(stage, e);
            StageAction::Report(b, c)
        },
        Ok(()) => match stage {
            VerifyStage::MessageHash => StageAction::Next(VerifyStage::SignatureR),
            VerifyStage::SignatureR => StageAction::Next(VerifyStage::SignatureS),
            VerifyStage::SignatureS => StageAction::Next(VerifyStage::PublicKey),
            VerifyStage::PublicKey => StageAction::Next(VerifyStage::Signature),
            VerifyStage::Signature => StageAction::Report(0x00, 0x00),
        },
    }
}

/// A report reads "valid" (stage byte 0) exactly when the signature check
/// itself succeeded, and a report then carries code 0; every other report
/// names the failed stage (bytes 1 to 5) and a nonzero error code.
pub proof fn law_report_zero_iff_valid(stage: VerifyStage, outcome: Result<(), P256Error>)
    ensures
        spec_after_stage(stage, outcome) matches StageAction::Report(b, c) ==> {
            &&& (b == 0 <==> (stage == VerifyStage::Signature && outcome is Ok))
            &&& (b == 0 ==> c == 0)
            &&& (b != 0 ==> 1 <= b <= 5 && 1 <= c <= 7)
        },
        spec_after_stage(stage, outcome) is Next <==> (outcome is Ok && stage != VerifyStage::Signature),
{
}

} // verus!
