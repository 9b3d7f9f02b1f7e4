//! Circuit orchestration: the witness-bearing circuit description, the
//! assignment plan it compiles to, and the row-by-row witness table.
//!
//! The plan lists, as plain data, everything the backend must do besides
//! writing witness values: which selectors to enable on which rows, which
//! cells are bound to circuit constants, which pairs of cells are
//! copy-constrained equal, and which cells are bound to which public-input
//! slots.  The witness table lists the value of every advice cell.  Both
//! are pure functions of their inputs, with exact contracts.

use vstd::prelude::*;
use vstd::arithmetic::power::pow;
use crate::field::{Scalar, modulus};
use crate::shape::{Wire, RowVals};

verus! {

/// A witness value: known when proving, a placeholder when only the
/// circuit shape is compiled for key generation.
pub enum Value {
    Known(Scalar),
    Unknown,
}

impl Value {
    /// A known value must be a canonical field element.
    pub open spec fn wf(self) -> bool {
        self is Known ==> self->Known_0.wf()
    }
}

/// Why an assignment pass cannot produce a witness table.
#[derive(Clone, Copy, PartialEq, Eq, Structural, Debug)]
pub enum LayoutError {
    /// The region is empty: `poly_degree` is zero, so there is no final
    /// cell to bind to the sum.
    EmptyRegion,
    /// The coefficient vector's length differs from `poly_degree`.
    LengthMismatch,
    /// A witness value is a placeholder; only shape compilation may see
    /// those.
    UnknownWitness,
}

/// One advice cell: a column and a row.
#[derive(Clone, Copy, PartialEq, Eq, Structural, Debug)]
pub struct CellId {
    pub wire: Wire,
    pub row: usize,
}

/// A selector enabled at a row.
#[derive(Clone, Copy, PartialEq, Eq, Structural, Debug)]
pub struct SelectorAt {
    pub selector: usize,
    pub row: usize,
}

/// Two cells declared equal (enforced by the backend's permutation
/// argument).
#[derive(Clone, Copy, PartialEq, Eq, Structural, Debug)]
pub struct CopyPair {
    pub left: CellId,
    pub right: CellId,
}

/// A cell bound to a circuit constant.
#[derive(Clone, Copy, PartialEq, Eq, Structural, Debug)]
pub struct ConstantCell {
    pub cell: CellId,
    pub value: u64,
}

/// A cell bound to a public-input slot.
#[derive(Clone, Copy, PartialEq, Eq, Structural, Debug)]
pub struct InstanceBinding {
    pub cell: CellId,
    pub slot: usize,
}

/// Everything one assignment pass declares besides the advice values.
#[derive(Debug)]
pub struct LayoutPlan {
    pub rows: usize,
    pub enabled: Vec<SelectorAt>,
    pub constants: Vec<ConstantCell>,
    pub copies: Vec<CopyPair>,
    pub bindings: Vec<InstanceBinding>,
}

/// Both selectors are enabled on every row of the region.
pub open spec fn enabled_spec(n: nat) -> Seq<SelectorAt> {
    Seq::new(n, |i: int| SelectorAt { selector: 0, row: i as usize }) + Seq::new(
        n,
        |i: int| SelectorAt { selector: 1, row: i as usize },
    )
}

/// Row 0 sources its initial state from the circuit constants 1 and 0.
pub open spec fn constants_spec() -> Seq<ConstantCell> {
    seq![
        ConstantCell { cell: CellId { wire: Wire::BCurr, row: 0 }, value: 1 },
        ConstantCell { cell: CellId { wire: Wire::AccCurr, row: 0 }, value: 0 },
    ]
}

/// The copy constraints: every row's `b` equals row 0's `b`, and each
/// row's incoming state equals the previous row's outgoing state.  For a
/// single row the list degenerates to no constraints.
pub open spec fn copies_spec(n: nat) -> Seq<CopyPair> {
    Seq::new(
        (n - 1) as nat,
        |i: int|
            CopyPair {
                left: CellId { wire: Wire::B, row: 0 },
                right: CellId { wire: Wire::B, row: (i + 1) as usize },
            },
    ) + Seq::new(
        (n - 1) as nat,
        |i: int|
            CopyPair {
                left: CellId { wire: Wire::BNext, row: i as usize },
                right: CellId { wire: Wire::BCurr, row: (i + 1) as usize },
            },
    ) + Seq::new(
        (n - 1) as nat,
        |i: int|
            CopyPair {
                left: CellId { wire: Wire::AccNext, row: i as usize },
                right: CellId { wire: Wire::AccCurr, row: (i + 1) as usize },
            },
    )
}

/// Public-input slot 0 is `b` (bound at row 0); slot 1 is the final sum
/// (the last row's `acc_next`).  Exactly these two, in this order.
pub open spec fn bindings_spec(n: nat) -> Seq<InstanceBinding> {
    seq![
        InstanceBinding { cell: CellId { wire: Wire::B, row: 0 }, slot: 0 },
        InstanceBinding {
            cell: CellId { wire: Wire::AccNext, row: (n - 1) as usize },
            slot: 1,
        },
    ]
}

/// The one assignment plan for a region of `n` rows.
pub open spec fn plan_is_canonical(p: LayoutPlan, n: nat) -> bool {
    &&& p.rows == n
    &&& p.enabled@ == enabled_spec(n)
    &&& p.constants@ == constants_spec()
    &&& p.copies@ == copies_spec(n)
    &&& p.bindings@ == bindings_spec(n)
}

/// Compiles the assignment plan for a region of `poly_degree` rows.  A
/// pure function of the degree: two calls with the same degree yield the
/// same plan.  Fails exactly on an empty region.
pub fn layout_plan(poly_degree: usize) -> (r: Result<LayoutPlan, LayoutError>)
    ensures
        poly_degree == 0 ==> r matches Err(LayoutError::EmptyRegion),
        poly_degree > 0 ==> (r matches Ok(p) && plan_is_canonical(p, poly_degree as nat)),
{
    if poly_degree == 0 {
        return Err(LayoutError::EmptyRegion);
    }
    let n = poly_degree;
    let ghost nn = n as nat;

    let mut enabled: Vec<SelectorAt> = Vec::new();
    let mut i: usize = 0;
    while i < n
        invariant
            i <= n,
            enabled@.len() == i,
            forall|j: int| 0 <= j < i ==> enabled@[j] == (SelectorAt { selector: 0, row: j as usize }),
        decreases n - i,
    {
        enabled.push(SelectorAt { selector: 0, row: i });
        i = i + 1;
    }
    i = 0;
    while i < n
        invariant
            i <= n,
            enabled@.len() == n + i,
            forall|j: int| 0 <= j < n ==> enabled@[j] == (SelectorAt { selector: 0, row: j as usize }),
            forall|j: int| n <= j < n + i ==> enabled@[j] == (SelectorAt {
                selector: 1,
                row: (j - n) as usize,
            }),
        decreases n - i,
    {
        enabled.push(SelectorAt { selector: 1, row: i });
        i = i + 1;
    }
    proof {
        assert(enabled@ =~= enabled_spec(nn));
    }

    let mut constants: Vec<ConstantCell> = Vec::new();
    constants.push(ConstantCell { cell: CellId { wire: Wire::BCurr, row: 0 }, value: 1 });
    constants.push(ConstantCell { cell: CellId { wire: Wire::AccCurr, row: 0 }, value: 0 });
    proof {
        assert(constants@ =~= constants_spec());
    }

    let mut copies: Vec<CopyPair> = Vec::new();
    i = 0;
    while i < n - 1
        invariant
            n >= 1,
            i <= n - 1,
            copies@.len() == i,
            forall|j: int| 0 <= j < i ==> copies@[j] == (CopyPair {
                left: CellId { wire: Wire::B, row: 0 },
                right: CellId { wire: Wire::B, row: (j + 1) as usize },
            }),
        decreases n - i,
    {
        copies.push(
            CopyPair {
                left: CellId { wire: Wire::B, row: 0 },
                right: CellId { wire: Wire::B, row: i + 1 },
            },
        );
        i = i + 1;
    }
    i = 0;
    while i < n - 1
        invariant
            n >= 1,
            i <= n - 1,
            copies@.len() == n - 1 + i,
            forall|j: int| 0 <= j < n - 1 ==> copies@[j] == (CopyPair {
                left: CellId { wire: Wire::B, row: 0 },
                right: CellId { wire: Wire::B, row: (j + 1) as usize },
            }),
            forall|j: int| n - 1 <= j < n - 1 + i ==> copies@[j] == (CopyPair {
                left: CellId { wire: Wire::BNext, row: (j - (n - 1)) as usize },
                right: CellId { wire: Wire::BCurr, row: (j - (n - 1) + 1) as usize },
            }),
        decreases n - i,
    {
        copies.push(
            CopyPair {
                left: CellId { wire: Wire::BNext, row: i },
                right: CellId { wire: Wire::BCurr, row: i + 1 },
            },
        );
        i = i + 1;
    }
    i = 0;
    while i < n - 1
        invariant
            n >= 1,
            i <= n - 1,
            copies@.len() == 2 * (n - 1) + i,
            forall|j: int| 0 <= j < n - 1 ==> copies@[j] == (CopyPair {
                left: CellId { wire: Wire::B, row: 0 },
                right: CellId { wire: Wire::B, row: (j + 1) as usize },
            }),
            forall|j: int| n - 1 <= j < 2 * (n - 1) ==> copies@[j] == (CopyPair {
                left: CellId { wire: Wire::BNext, row: (j - (n - 1)) as usize },
                right: CellId { wire: Wire::BCurr, row: (j - (n - 1) + 1) as usize },
            }),
            forall|j: int| 2 * (n - 1) <= j < 2 * (n - 1) + i ==> copies@[j] == (CopyPair {
                left: CellId { wire: Wire::AccNext, row: (j - 2 * (n - 1)) as usize },
                right: CellId { wire: Wire::AccCurr, row: (j - 2 * (n - 1) + 1) as usize },
            }),
        decreases n - i,
    {
        copies.push(
            CopyPair {
                left: CellId { wire: Wire::AccNext, row: i },
                right: CellId { wire: Wire::AccCurr, row: i + 1 },
            },
        );
        i = i + 1;
    }
    proof {
        assert(copies@ =~= copies_spec(nn));
    }

    let mut bindings: Vec<InstanceBinding> = Vec::new();
    bindings.push(InstanceBinding { cell: CellId { wire: Wire::B, row: 0 }, slot: 0 });
    bindings.push(
        InstanceBinding { cell: CellId { wire: Wire::AccNext, row: n - 1 }, slot: 1 },
    );
    proof {
        assert(bindings@ =~= bindings_spec(nn));
    }

    Ok(LayoutPlan { rows: n, enabled, constants, copies, bindings })
}

/// Row `i` of the table carries the witness: coefficient `a[i]`, the
/// scalar `b`, and one step of each recurrence, all in the field.
pub open spec fn row_matches(rows: Seq<RowVals>, a: Seq<Scalar>, b: Scalar, i: int) -> bool {
    let r = rows[i];
    &&& r.wf()
    &&& r.a.value() == a[i].value()
    &&& r.b.value() == b.value()
    &&& r.b_next.value() == (r.b.value() * r.b_curr.value()) % modulus()
    &&& r.acc_next.value() == (r.acc_curr.value() + r.a.value() * r.b_curr.value()) % modulus()
}

/// Row `i + 1` takes over row `i`'s outgoing state.
pub open spec fn chain_matches(rows: Seq<RowVals>, i: int) -> bool {
    &&& rows[i + 1].b_curr.value() == rows[i].b_next.value()
    &&& rows[i + 1].acc_curr.value() == rows[i].acc_next.value()
}

/// The full witness table for coefficients `a` and scalar `b`: one row per
/// coefficient, initial state `(1, 0)`, every row a recurrence step, and
/// consecutive rows chained.
pub open spec fn table_matches(rows: Seq<RowVals>, a: Seq<Scalar>, b: Scalar) -> bool {
    &&& rows.len() == a.len()
    &&& rows.len() > 0 ==> rows[0].b_curr.value() == 1 && rows[0].acc_curr.value() == 0
    &&& forall|i: int| 0 <= i < rows.len() ==> #[trigger] row_matches(rows, a, b, i)
    &&& forall|i: int| 0 <= i < rows.len() - 1 ==> #[trigger] chain_matches(rows, i)
}

/// The circuit description: secret coefficients `a` (length
/// `poly_degree`), the secret scalar `b`, and the degree.  Values are
/// placeholders when the description only serves key generation.
pub struct CircuitChainedPolyEval {
    pub a: Vec<Value>,
    pub b: Value,
    pub poly_degree: usize,
}

impl CircuitChainedPolyEval {
    /// Every known value is a canonical field element.
    pub open spec fn wf(self) -> bool {
        &&& self.b.wf()
        &&& forall|i: int| 0 <= i < self.a@.len() ==> (#[trigger] self.a@[i]).wf()
    }

    /// All witness values are present.
    pub open spec fn all_known(self) -> bool {
        &&& self.b is Known
        &&& forall|i: int| 0 <= i < self.a@.len() ==> (#[trigger] self.a@[i]) is Known
    }

    /// The coefficients, when all are known.
    pub open spec fn known_a(self) -> Seq<Scalar> {
        self.a@.map_values(|v: Value| v->Known_0)
    }

    /// A witness-free clone of the circuit for key generation: same
    /// degree, same coefficient count, every value a placeholder.
    pub fn without_witnesses(&self) -> (r: Self)
        ensures
            r.poly_degree == self.poly_degree,
            r.a@.len() == self.a@.len(),
            forall|i: int| 0 <= i < r.a@.len() ==> (#[trigger] r.a@[i]) is Unknown,
            r.b is Unknown,
    {
        let mut a: Vec<Value> = Vec::new();
        let mut i: usize = 0;
        while i < self.a.len()
            invariant
                i <= self.a@.len(),
                a@.len() == i,
                forall|j: int| 0 <= j < i ==> (#[trigger] a@[j]) is Unknown,
            decreases self.a@.len() - i,
        {
            a.push(Value::Unknown);
            i = i + 1;
        }
        CircuitChainedPolyEval { a, b: Value::Unknown, poly_degree: self.poly_degree }
    }

    /// Runs the assignment recurrence and returns the value of every
    /// advice cell.  Maintains `b_curr = 1` and `acc_curr = 0` at row 0
    /// and advances `b_curr` by `b` and `acc_curr` by `a[i] * b_curr` per
    /// row.  Fails exactly on an empty region, a coefficient vector of
    /// the wrong length, or a placeholder witness value.
    pub fn witness_table(&self) -> (r: Result<Vec<RowVals>, LayoutError>)
        requires
            self.wf(),
        ensures
            self.poly_degree == 0 ==> r matches Err(LayoutError::EmptyRegion),
            self.poly_degree > 0 && self.a@.len() != self.poly_degree ==> r matches Err(
                LayoutError::LengthMismatch,
            ),
            self.poly_degree > 0 && self.a@.len() == self.poly_degree && !self.all_known()
                ==> r matches Err(LayoutError::UnknownWitness),
            self.poly_degree > 0 && self.a@.len() == self.poly_degree && self.all_known()
                ==> (r matches Ok(rows) && table_matches(rows@, self.known_a(), self.b->Known_0)),
    {
        let n = self.poly_degree;
        if n == 0 {
            return Err(LayoutError::EmptyRegion);
        }
        if self.a.len() != n {
            return Err(LayoutError::LengthMismatch);
        }
        let b_s: &Scalar = match &self.b {
            Value::Known(s) => s,
            Value::Unknown => { return Err(LayoutError::UnknownWitness) },
        };
        let mut rows: Vec<RowVals> = Vec::new();
        let mut b_curr: Scalar = Scalar::from_u64(1);
        let mut acc_curr: Scalar = Scalar::from_u64(0);
        let mut i: usize = 0;
        while i < n
            invariant
                self.wf(),
                n == self.poly_degree,
                self.a@.len() == n,
                n > 0,
                self.b is Known,
                self.b->Known_0 == *b_s,
                b_s.wf(),
                i <= n,
                rows@.len() == i,
                b_curr.wf(),
                acc_curr.wf(),
                forall|j: int| 0 <= j < i ==> (#[trigger] self.a@[j]) is Known,
                i == 0 ==> b_curr.value() == 1 && acc_curr.value() == 0,
                i > 0 ==> b_curr.value() == rows@[i - 1].b_next.value() && acc_curr.value()
                    == rows@[i - 1].acc_next.value(),
                i > 0 ==> rows@[0].b_curr.value() == 1 && rows@[0].acc_curr.value() == 0,
                forall|j: int| 0 <= j < i ==> #[trigger] row_matches(
                    rows@,
                    self.known_a(),
                    self.b->Known_0,
                    j,
                ),
                forall|j: int| 0 <= j < i - 1 ==> #[trigger] chain_matches(rows@, j),
            decreases n - i,
        {
            let a_i: &Scalar = match &self.a[i] {
                Value::Known(s) => s,
                Value::Unknown => { return Err(LayoutError::UnknownWitness) },
            };
            let b_next = crate::field::scalar_mul(b_s, &b_curr);
            let t = crate::field::scalar_mul(a_i, &b_curr);
            let acc_next = crate::field::scalar_add(&acc_curr, &t);
            proof {
                vstd::arithmetic::div_mod::lemma_add_mod_noop_right(
                    acc_curr.value(),
                    a_i.value() * b_curr.value(),
                    modulus(),
                );
            }
            let ghost old_rows = rows@;
            rows.push(
                RowVals {
                    a: a_i.duplicate(),
                    b: b_s.duplicate(),
                    b_curr: b_curr.duplicate(),
                    b_next: b_next.duplicate(),
                    acc_curr: acc_curr.duplicate(),
                    acc_next: acc_next.duplicate(),
                },
            );
            proof {
                assert forall|j: int| 0 <= j < i + 1 implies #[trigger] row_matches(
                    rows@,
                    self.known_a(),
                    self.b->Known_0,
                    j,
                ) by {
                    if j < i {
                        assert(row_matches(old_rows, self.known_a(), self.b->Known_0, j));
                        assert(rows@[j] == old_rows[j]);
                    } else {
                        assert(self.known_a()[j] == self.a@[j]->Known_0);
                    }
                }
                assert forall|j: int| 0 <= j < i implies #[trigger] chain_matches(rows@, j) by {
                    if j < i - 1 {
                        assert(chain_matches(old_rows, j));
                        assert(rows@[j] == old_rows[j]);
                        assert(rows@[j + 1] == old_rows[j + 1]);
                    }
                }
            }
            b_curr = b_next;
            acc_curr = acc_next;
            i = i + 1;
        }
        Ok(rows)
    }
}

/// The integers a scalar sequence stands for.
pub open spec fn scalar_values(s: Seq<Scalar>) -> Seq<int> {
    s.map_values(|x: Scalar| x.value())
}

/// The first `k` terms of the polynomial: `sum_{i<k} a[i] * b^i`, as a
/// plain integer (no reduction).
pub open spec fn psum(a: Seq<int>, b: int, k: nat) -> int
    decreases k,
{
    if k == 0 {
        0
    } else {
        psum(a, b, (k - 1) as nat) + a[k - 1] * pow(b, (k - 1) as nat)
    }
}

/// Evaluates `sum_i a[i] * b^i` in the field: the reference value for the
/// second public input.
pub fn poly_eval(a: &Vec<Scalar>, b: &Scalar) -> (sum: Scalar)
    requires
        forall|i: int| 0 <= i < a@.len() ==> (#[trigger] a@[i]).wf(),
        b.wf(),
    ensures
        sum.wf(),
        sum.value() == psum(scalar_values(a@), b.value(), a@.len()) % modulus(),
{
    let mut sum: Scalar = Scalar::from_u64(0);
    let mut b_pow: Scalar = Scalar::from_u64(1);
    let mut i: usize = 0;
    proof {
        vstd::arithmetic::power::lemma_pow0(b.value());
    }
    while i < a.len()
        invariant
            forall|j: int| 0 <= j < a@.len() ==> (#[trigger] a@[j]).wf(),
            b.wf(),
            i <= a@.len(),
            sum.wf(),
            b_pow.wf(),
            sum.value() == psum(scalar_values(a@), b.value(), i as nat) % modulus(),
            b_pow.value() == pow(b.value(), i as nat) % modulus(),
        decreases a@.len() - i,
    {
        let term = crate::field::scalar_mul(&a[i], &b_pow);
        let new_sum = crate::field::scalar_add(&sum, &term);
        let new_pow = crate::field::scalar_mul(b, &b_pow);
        proof {
            let m = modulus();
            let av = a@[i as int].value();
            let bv = b.value();
            let p_i = pow(bv, i as nat);
            vstd::arithmetic::div_mod::lemma_mul_mod_noop_right(av, p_i, m);
            assert(term.value() == (av * p_i) % m);
            vstd::arithmetic::div_mod::lemma_add_mod_noop(
                psum(scalar_values(a@), bv, i as nat),
                av * p_i,
                m,
            );
            assert(scalar_values(a@)[i as int] == av);
            assert(psum(scalar_values(a@), bv, (i + 1) as nat) == psum(
                scalar_values(a@),
                bv,
                i as nat,
            ) + av * p_i);
            assert(new_sum.value() == psum(scalar_values(a@), bv, (i + 1) as nat) % m);
            vstd::arithmetic::div_mod::lemma_mul_mod_noop_right(bv, p_i, m);
            vstd::arithmetic::power::lemma_pow1(bv);
            vstd::arithmetic::power::lemma_pow_adds(bv, 1, i as nat);
            assert(new_pow.value() == pow(bv, (i + 1) as nat) % m);
        }
        sum = new_sum;
        b_pow = new_pow;
        i = i + 1;
    }
    sum
}

/// The public-input vector for a proof: exactly `[b, sum]`, in that
/// order.
pub fn public_inputs(b: &Scalar, sum: &Scalar) -> (v: Vec<Scalar>)
    ensures
        v@.len() == 2,
        v@[0].bytes@ == b.bytes@,
        v@[1].bytes@ == sum.bytes@,
{
    let mut v: Vec<Scalar> = Vec::new();
    v.push(b.duplicate());
    v.push(sum.duplicate());
    v
}

} // verus!
