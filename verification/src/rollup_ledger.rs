//! Rollup settlement pipeline: a transaction record is handed by value to a
//! pluggable settlement rule, and the credit committed to the new state is
//! the record's declared credit, whatever the rule does with its own copy.
use vstd::prelude::*;

verus! {

/// Protocol fixed-point scale: amounts are quoted to six decimal places.
pub const BASE_UNIT_SCALE: i32 = 1_000_000;

/// Per-batch credit cap, in base units.
pub const PER_BATCH_CAP: i32 = 5_000_000;

/// Settlement record.
#[derive(Clone, Copy)]
pub struct Tx {
    /// Credit applied to the destination account.
    pub credit: i32,
    /// Source account index.
    pub from: i32,
    /// Destination account index.
    pub to: i32,
}

/// A pluggable settlement / fraud-check rule. It receives its own copy of the
/// record and rejects the records it does not accept; the default rule only
/// inspects the record and accepts a non-negative credit.
pub trait Settler {
    /// The records this rule lets through.
    open spec fn accepts(&self, tx: Tx) -> bool {
        tx.credit >= 0
    }

    /// Checks the rule's own copy of a record; a record the rule does not
    /// accept is rejected and never reaches the commit.
    fn validate(&self, tx: Tx)
        requires
            self.accepts(tx),
    {
        let _credit = &tx.credit;
    }
}

/// The production rule: normalises its copy of the credit into base units and
/// lets through only credits within the per-batch cap.
impl Settler for () {
    open spec fn accepts(&self, tx: Tx) -> bool {
        tx.credit.wrapping_mul(BASE_UNIT_SCALE) <= PER_BATCH_CAP
    }

    fn validate(&self, tx: Tx) {
        let mut tx = tx;
        tx.credit = tx.credit.wrapping_mul(BASE_UNIT_SCALE);
        assert(tx.credit <= PER_BATCH_CAP);
    }
}

/// Under the production rule, a credit between 0 and 2147 (whose base-unit
/// amount does not wrap) passes exactly when it is at most 5 units.
pub proof fn law_production_cap(tx: Tx)
    requires
        0 <= tx.credit <= 2147,
    ensures
        ().accepts(tx) <==> tx.credit <= 5,
{
    let c = tx.credit;
    assert(0 <= c * 1_000_000 <= i32::MAX) by (nonlinear_arith)
        requires
            0 <= c <= 2147,
    ;
    assert(c * 1_000_000 <= 5_000_000 <==> c <= 5) by (nonlinear_arith)
        requires
            0 <= c,
    ;
}

/// Commits the credit field of the record to the new state.
pub fn commit_credit(tx: Tx) -> (credit: i32)
    ensures
        credit == tx.credit,
{
    tx.credit
}

/// Runs one settlement step: the dispatched rule sees a copy of `tx`, then the
/// canonical credit is committed.
pub fn settle<S: Settler + ?Sized>(settler: &S, tx: Tx) -> (credit: i32)
    requires
        settler.accepts(tx),
    ensures
        credit == tx.credit,
{
    settler.validate(tx);
    commit_credit(tx)
}

/// The committed credit does not depend on the rule: whatever two rules that
/// accept the record do with their copies, settling under either commits the
/// same credit, the declared one.
pub proof fn law_credit_independent_of_rule<S1: Settler + ?Sized, S2: Settler + ?Sized>(
    s1: &S1,
    s2: &S2,
    tx: Tx,
    c1: i32,
    c2: i32,
)
    requires
        call_ensures(settle::<S1>, (s1, tx), c1),
        call_ensures(settle::<S2>, (s2, tx), c2),
    ensures
        c1 == c2,
        c1 == tx.credit,
{
}

/// Committed credit for `tx` under the production rule, which rejects a
/// credit whose base-unit amount exceeds the per-batch cap.
pub fn settled_amount(tx: Tx) -> (credit: i32)
    requires
        tx.credit.wrapping_mul(BASE_UNIT_SCALE) <= PER_BATCH_CAP,
    ensures
        credit == tx.credit,
{
    settle(&(), tx)
}

/// New balance of an account after a batch credits it with `declared_credit`
/// (both taken modulo `2^32`); the production rule rejects a credit above the
/// per-batch cap.
pub fn process_settlement(opening_balance: u32, declared_credit: i32, from: i32, to: i32) -> (balance: u32)
    requires
        declared_credit.wrapping_mul(BASE_UNIT_SCALE) <= PER_BATCH_CAP,
    ensures
        balance == opening_balance.wrapping_add(declared_credit as u32),
{
    let tx = Tx { credit: declared_credit, from, to };
    let credit = settled_amount(tx) as u32;
    opening_balance.wrapping_add(credit)
}

} // verus!
