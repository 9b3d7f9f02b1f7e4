//! The arithmetization: the column and selector layout of the circuit and
//! its two selector-gated polynomial gates, represented as plain data.
//!
//! A gate is an expression tree over the six advice (witness) columns of a
//! single row; it must vanish modulo the field order on every row where
//! its selector is enabled.  The backend consumes this description when it
//! compiles the circuit shape; the lemmas at the bottom connect each
//! gate's vanishing to the recurrence step it encodes.

use vstd::prelude::*;
use crate::field::{Scalar, modulus};

verus! {

/// The six advice (witness) columns of the circuit.
#[derive(Clone, Copy, PartialEq, Eq, Structural, Debug)]
pub enum Wire {
    A,
    B,
    BCurr,
    BNext,
    AccCurr,
    AccNext,
}

/// A polynomial over the advice values of one row: constants, column
/// references, addition, subtraction and multiplication.
#[derive(Debug)]
pub enum Expr {
    Const(u64),
    Var(Wire),
    Add(Box<Expr>, Box<Expr>),
    Sub(Box<Expr>, Box<Expr>),
    Mul(Box<Expr>, Box<Expr>),
}

/// The values one row assigns to the six advice columns.
#[derive(Debug)]
pub struct RowVals {
    pub a: Scalar,
    pub b: Scalar,
    pub b_curr: Scalar,
    pub b_next: Scalar,
    pub acc_curr: Scalar,
    pub acc_next: Scalar,
}

impl RowVals {
    /// Every value of the row is a canonical field element.
    pub open spec fn wf(self) -> bool {
        self.a.wf() && self.b.wf() && self.b_curr.wf() && self.b_next.wf()
            && self.acc_curr.wf() && self.acc_next.wf()
    }

    /// The value the row holds in a given column.
    pub open spec fn wire_value(self, w: Wire) -> int {
        match w {
            Wire::A => self.a.value(),
            Wire::B => self.b.value(),
            Wire::BCurr => self.b_curr.value(),
            Wire::BNext => self.b_next.value(),
            Wire::AccCurr => self.acc_curr.value(),
            Wire::AccNext => self.acc_next.value(),
        }
    }
}

/// The integer a gate polynomial evaluates to against one row's values.
pub open spec fn eval_expr(e: Expr, r: RowVals) -> int
    decreases e,
{
    match e {
        Expr::Const(c) => c as int,
        Expr::Var(w) => r.wire_value(w),
        Expr::Add(x, y) => eval_expr(*x, r) + eval_expr(*y, r),
        Expr::Sub(x, y) => eval_expr(*x, r) - eval_expr(*y, r),
        Expr::Mul(x, y) => eval_expr(*x, r) * eval_expr(*y, r),
    }
}

/// A gate: `selector * poly = 0`, i.e. `poly` must vanish modulo the
/// field order on every row where the selector is enabled.
pub struct Gate {
    pub selector: usize,
    pub poly: Expr,
}

/// The polynomial of `g` reduces to zero, modulo the field order, on
/// row `r`.
pub open spec fn gate_holds(g: Gate, r: RowVals) -> bool {
    eval_expr(g.poly, r) % modulus() == 0
}

/// The geometric step: `b_next - b * b_curr`.
pub open spec fn gate_b_poly() -> Expr {
    Expr::Sub(
        Box::new(Expr::Var(Wire::BNext)),
        Box::new(Expr::Mul(Box::new(Expr::Var(Wire::B)), Box::new(Expr::Var(Wire::BCurr)))),
    )
}

/// The accumulation step: `acc_next - (acc_curr + a * b_curr)`.
pub open spec fn gate_acc_poly() -> Expr {
    Expr::Sub(
        Box::new(Expr::Var(Wire::AccNext)),
        Box::new(
            Expr::Add(
                Box::new(Expr::Var(Wire::AccCurr)),
                Box::new(
                    Expr::Mul(Box::new(Expr::Var(Wire::A)), Box::new(Expr::Var(Wire::BCurr))),
                ),
            ),
        ),
    )
}

/// The circuit's gate family: the geometric step guarded by the first
/// selector, the accumulation step guarded by the second.
pub open spec fn gates_spec() -> Seq<Gate> {
    seq![
        Gate { selector: 0, poly: gate_b_poly() },
        Gate { selector: 1, poly: gate_acc_poly() },
    ]
}

/// The column and selector layout of the circuit: six advice columns, one
/// instance column, one fixed column for circuit constants, and the two
/// gate selectors.  Indices count within each column kind, in declaration
/// order.  Equality (copy constraints) is enabled on all six advice
/// columns and on the instance column.
#[derive(Clone, Copy, PartialEq, Eq, Structural, Debug)]
pub struct ConfigChainedEval {
    pub a: usize,
    pub b: usize,
    pub b_curr: usize,
    pub b_next: usize,
    pub acc_curr: usize,
    pub acc_next: usize,
    pub instance: usize,
    pub constants: usize,
    pub selector_b: usize,
    pub selector_acc: usize,
}

/// The one layout the circuit ever uses.  Configuration is a pure
/// function: repeated shape compilations see byte-identical layouts.
pub open spec fn config_spec() -> ConfigChainedEval {
    ConfigChainedEval {
        a: 0,
        b: 1,
        b_curr: 2,
        b_next: 3,
        acc_curr: 4,
        acc_next: 5,
        instance: 0,
        constants: 0,
        selector_b: 0,
        selector_acc: 1,
    }
}

/// The chip owning the column layout.
pub struct ChipChainedEval {
    pub config: ConfigChainedEval,
}

impl ChipChainedEval {
    pub fn construct(config: ConfigChainedEval) -> (r: Self)
        ensures
            r.config == config,
    {
        ChipChainedEval { config }
    }

    pub fn config(&self) -> (r: &ConfigChainedEval)
        ensures
            *r == self.config,
    {
        &self.config
    }

    /// Declares the column/selector layout.  Deterministic: always the
    /// canonical layout.
    pub fn configure() -> (cfg: ConfigChainedEval)
        ensures
            cfg == config_spec(),
    {
        ConfigChainedEval {
            a: 0,
            b: 1,
            b_curr: 2,
            b_next: 3,
            acc_curr: 4,
            acc_next: 5,
            instance: 0,
            constants: 0,
            selector_b: 0,
            selector_acc: 1,
        }
    }

    /// Declares the two gates.  Repeated calls return equal data.
    pub fn gates() -> (gs: Vec<Gate>)
        ensures
            gs@ == gates_spec(),
    {
        let mut gs: Vec<Gate> = Vec::new();
        gs.push(
            Gate {
                selector: 0,
                poly: Expr::Sub(
                    Box::new(Expr::Var(Wire::BNext)),
                    Box::new(
                        Expr::Mul(
                            Box::new(Expr::Var(Wire::B)),
                            Box::new(Expr::Var(Wire::BCurr)),
                        ),
                    ),
                ),
            },
        );
        gs.push(
            Gate {
                selector: 1,
                poly: Expr::Sub(
                    Box::new(Expr::Var(Wire::AccNext)),
                    Box::new(
                        Expr::Add(
                            Box::new(Expr::Var(Wire::AccCurr)),
                            Box::new(
                                Expr::Mul(
                                    Box::new(Expr::Var(Wire::A)),
                                    Box::new(Expr::Var(Wire::BCurr)),
                                ),
                            ),
                        ),
                    ),
                ),
            },
        );
        proof {
            assert(gs@ =~= gates_spec());
        }
        gs
    }
}

/// The geometric-step gate vanishes on a well-formed row exactly when the
/// row's `b_next` is `b * b_curr` in the field.
pub proof fn lemma_gate_b_semantics(r: RowVals)
    requires
        r.wf(),
    ensures
        gate_holds(gates_spec()[0], r) <==> r.b_next.value() == (r.b.value() * r.b_curr.value())
            % modulus(),
{
    let m = modulus();
    let bn = r.b_next.value();
    let y = r.b.value() * r.b_curr.value();
    assert(eval_expr(gate_b_poly(), r) == bn - y) by {
        reveal_with_fuel(eval_expr, 5);
    }
    vstd::arithmetic::div_mod::lemma_mod_equivalence(bn, y, m);
    vstd::arithmetic::div_mod::lemma_small_mod(bn as nat, m as nat);
}

/// The accumulation-step gate vanishes on a well-formed row exactly when
/// the row's `acc_next` is `acc_curr + a * b_curr` in the field.
pub proof fn lemma_gate_acc_semantics(r: RowVals)
    requires
        r.wf(),
    ensures
        gate_holds(gates_spec()[1], r) <==> r.acc_next.value() == (r.acc_curr.value()
            + r.a.value() * r.b_curr.value()) % modulus(),
{
    let m = modulus();
    let an = r.acc_next.value();
    let y = r.acc_curr.value() + r.a.value() * r.b_curr.value();
    assert(eval_expr(gate_acc_poly(), r) == an - y) by {
        reveal_with_fuel(eval_expr, 5);
    }
    vstd::arithmetic::div_mod::lemma_mod_equivalence(an, y, m);
    vstd::arithmetic::div_mod::lemma_small_mod(an as nat, m as nat);
}

} // verus!
