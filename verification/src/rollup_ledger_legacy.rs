//! The earlier settlement core: a fixed `(1, 2, 3)` record is read, handed to
//! the dispatched rule by value, and read again; the committed credit is the
//! record's own credit, untouched by the rule's normalisation of its copy.
use vstd::prelude::*;

verus! {

/// Protocol fixed-point scale: amounts are quoted to six decimal places.
pub const BASE_UNIT_SCALE: i32 = 1_000_000;

/// Per-batch credit cap, in base units.
pub const PER_BATCH_CAP: i32 = 5_000_000;

/// Settlement record: (credit amount, from account, to account).
pub struct Tx(pub i32, pub i32, pub i32);

/// A pluggable settlement / fraud-check rule. It receives its own record and
/// rejects the records it does not accept; the default rule only inspects the
/// record and accepts a non-negative credit.
pub trait Settler {
    /// The records this rule lets through.
    open spec fn accepts(&self, tx: Tx) -> bool {
        tx.0 >= 0
    }

    /// Checks the rule's own record; a record the rule does not accept is
    /// rejected and never reaches the commit.
    fn validate(&self, tx: Tx)
        requires
            self.accepts(tx),
    {
        let _credit = &tx.0;
    }
}

/// The production rule: normalises its record's credit into base units and
/// lets through only credits within the per-batch cap.
impl Settler for () {
    open spec fn accepts(&self, tx: Tx) -> bool {
        tx.0.wrapping_mul(BASE_UNIT_SCALE) <= PER_BATCH_CAP
    }

    fn validate(&self, tx: Tx) {
        let mut tx = tx;
        tx.0 = tx.0.wrapping_mul(BASE_UNIT_SCALE);
        assert(tx.0 <= PER_BATCH_CAP);
    }
}

/// Reads the credit amount of a record. Its decimal rendering is `"1"` exactly
/// when the credit is `1`, so both branches give the credit itself.
pub fn read_amount(tx: Tx) -> (credit: i32)
    ensures
        credit == tx.0,
{
    if tx.0 != 1 {
        tx.0
    } else {
        1
    }
}

/// Runs the settlement step on the batch record `(1, 2, 3)` and returns the
/// committed credit.
pub fn settle<S: Settler + ?Sized>(settler: &S) -> (credit: i32)
    requires
        settler.accepts(Tx(1, 2, 3)),
    ensures
        credit == 1,
{
    let _ = read_amount(Tx(1, 2, 3));
    settler.validate(Tx(1, 2, 3));
    read_amount(Tx(1, 2, 3))
}

/// Committed credit of the batch under the production rule.
pub fn settled_amount() -> (credit: i32)
    ensures
        credit == 1,
{
    settle(&())
}

} // verus!
