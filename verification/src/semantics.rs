//! What it means for a witness table to satisfy the circuit's constraint
//! system, and the laws that satisfaction implies.
//!
//! Completeness: the table produced from a witness satisfies every gate,
//! copy constraint, constant binding and public-input binding, with
//! public inputs `[b, sum]`, and the bound sum is the polynomial's value.
//! Soundness: any well-formed table satisfying the constraint system
//! binds, in slot 1, exactly the polynomial evaluated at slot 0 over the
//! table's own coefficient column — so a perturbed sum, or swapped public
//! inputs (unless `b` equals the sum), cannot be accepted.

use vstd::prelude::*;
use vstd::arithmetic::power::pow;
use crate::field::modulus;
use crate::shape::{RowVals, Gate, gate_holds, gates_spec, lemma_gate_b_semantics,
    lemma_gate_acc_semantics, ConfigChainedEval, config_spec};
use crate::circuit::{CellId, SelectorAt, CopyPair, ConstantCell, InstanceBinding, LayoutPlan,
    enabled_spec, constants_spec, copies_spec, bindings_spec, plan_is_canonical, table_matches,
    row_matches, chain_matches, psum, scalar_values};
use crate::field::Scalar;
use crate::shape::Wire;

verus! {

/// The value a table holds in a cell.
pub open spec fn cell_value(rows: Seq<RowVals>, c: CellId) -> int {
    rows[c.row as int].wire_value(c.wire)
}

/// Each gate polynomial reduces to zero, modulo the field order, at
/// every row with that gate's selector set.
pub open spec fn gates_hold(gates: Seq<Gate>, enabled: Seq<SelectorAt>, rows: Seq<RowVals>) -> bool {
    forall|gi: int, si: int|
        #![trigger gates[gi], enabled[si]]
        0 <= gi < gates.len() && 0 <= si < enabled.len() && gates[gi].selector
            == enabled[si].selector ==> gate_holds(gates[gi], rows[enabled[si].row as int])
}

/// Every declared pair of cells holds equal values.
pub open spec fn copies_hold(copies: Seq<CopyPair>, rows: Seq<RowVals>) -> bool {
    forall|i: int|
        0 <= i < copies.len() ==> cell_value(rows, (#[trigger] copies[i]).left) == cell_value(
            rows,
            copies[i].right,
        )
}

/// Every constant-bound cell holds its constant.
pub open spec fn constants_hold(constants: Seq<ConstantCell>, rows: Seq<RowVals>) -> bool {
    forall|i: int|
        0 <= i < constants.len() ==> cell_value(rows, (#[trigger] constants[i]).cell)
            == constants[i].value
}

/// Every bound cell equals the public input in its slot.
pub open spec fn bindings_hold(
    bindings: Seq<InstanceBinding>,
    rows: Seq<RowVals>,
    pub_in: Seq<int>,
) -> bool {
    forall|i: int|
        0 <= i < bindings.len() ==> cell_value(rows, (#[trigger] bindings[i]).cell)
            == pub_in[bindings[i].slot as int]
}

/// The whole constraint system is satisfied by the table against the
/// given public inputs.
pub open spec fn constraints_hold(
    gates: Seq<Gate>,
    plan: LayoutPlan,
    rows: Seq<RowVals>,
    pub_in: Seq<int>,
) -> bool {
    &&& rows.len() == plan.rows
    &&& gates_hold(gates, plan.enabled@, rows)
    &&& copies_hold(plan.copies@, rows)
    &&& constants_hold(plan.constants@, rows)
    &&& bindings_hold(plan.bindings@, rows, pub_in)
}

/// Column `a` of a table, as integers.
pub open spec fn a_column(rows: Seq<RowVals>) -> Seq<int> {
    rows.map_values(|r: RowVals| r.a.value())
}

/// Every row's values are canonical field elements.
pub open spec fn rows_wf(rows: Seq<RowVals>) -> bool {
    forall|i: int| 0 <= i < rows.len() ==> (#[trigger] rows[i]).wf()
}

/// The semantic content of the constraint system, row by row: what the
/// proofs below extract from gates, copies, constants and bindings.
spec fn recurrence_facts(rows: Seq<RowVals>, p0: int) -> bool {
    &&& rows.len() >= 1
    &&& rows_wf(rows)
    &&& rows[0].b_curr.value() == 1
    &&& rows[0].acc_curr.value() == 0
    &&& forall|i: int| 0 <= i < rows.len() ==> (#[trigger] rows[i]).b.value() == p0
    &&& forall|i: int|
        0 <= i < rows.len() ==> (#[trigger] rows[i]).b_next.value() == (rows[i].b.value()
            * rows[i].b_curr.value()) % modulus()
    &&& forall|i: int|
        0 <= i < rows.len() ==> (#[trigger] rows[i]).acc_next.value() == (rows[i].acc_curr.value()
            + rows[i].a.value() * rows[i].b_curr.value()) % modulus()
    &&& forall|i: int| 0 <= i < rows.len() - 1 ==> #[trigger] chain_matches(rows, i)
}

/// By induction over the rows: the running power and the running sum are
/// exactly `b^k` and the first `k + 1` polynomial terms, in the field.
proof fn lemma_recurrence_state(rows: Seq<RowVals>, p0: int, k: int)
    requires
        recurrence_facts(rows, p0),
        0 <= k < rows.len(),
    ensures
        rows[k].b_curr.value() == pow(p0, k as nat) % modulus(),
        rows[k].acc_next.value() == psum(a_column(rows), p0, (k + 1) as nat) % modulus(),
    decreases k,
{
    let m = modulus();
    let ac = a_column(rows);
    assert(ac[k] == rows[k].a.value());
    if k == 0 {
        vstd::arithmetic::power::lemma_pow0(p0);
        vstd::arithmetic::div_mod::lemma_small_mod(1nat, m as nat);
        assert(rows[0].b_curr.value() == pow(p0, 0) % m);
        assert(psum(ac, p0, 1) == psum(ac, p0, 0) + ac[0] * pow(p0, 0));
        assert(rows[0].acc_next.value() == (rows[0].acc_curr.value() + rows[0].a.value()
            * rows[0].b_curr.value()) % m);
        assert(rows[0].acc_next.value() == psum(ac, p0, 1) % m);
    } else {
        lemma_recurrence_state(rows, p0, k - 1);
        let pk1 = pow(p0, (k - 1) as nat);
        let x = psum(ac, p0, k as nat);
        assert(chain_matches(rows, k - 1));
        // The running power: b_curr[k] = b_next[k-1] = (p0 * b_curr[k-1]) mod m.
        assert(rows[k - 1].b_next.value() == (rows[k - 1].b.value() * rows[k - 1].b_curr.value())
            % m);
        assert(rows[k].b_curr.value() == (p0 * (pk1 % m)) % m);
        vstd::arithmetic::div_mod::lemma_mul_mod_noop_right(p0, pk1, m);
        assert(pow(p0, k as nat) == p0 * pk1) by {
            vstd::arithmetic::power::lemma_pow1(p0);
            vstd::arithmetic::power::lemma_pow_adds(p0, 1, (k - 1) as nat);
        }
        assert(rows[k].b_curr.value() == pow(p0, k as nat) % m);
        // The running sum: acc_next[k] = (acc_next[k-1] + a[k] * b_curr[k]) mod m.
        let y = ac[k] * pow(p0, k as nat);
        assert(rows[k].acc_curr.value() == rows[k - 1].acc_next.value());
        assert(rows[k].acc_next.value() == ((x % m) + ac[k] * (pow(p0, k as nat) % m)) % m);
        vstd::arithmetic::div_mod::lemma_mul_mod_noop_right(ac[k], pow(p0, k as nat), m);
        vstd::arithmetic::div_mod::lemma_add_mod_noop_right(
            x % m,
            ac[k] * (pow(p0, k as nat) % m),
            m,
        );
        vstd::arithmetic::div_mod::lemma_add_mod_noop_right(x % m, y, m);
        assert(((x % m) + ac[k] * (pow(p0, k as nat) % m)) % m == ((x % m) + y % m) % m);
        assert(((x % m) + y % m) % m == (x + y) % m) by {
            vstd::arithmetic::div_mod::lemma_add_mod_noop(x, y, m);
        }
        assert(psum(ac, p0, (k + 1) as nat) == x + y);
        assert(rows[k].acc_next.value() == psum(ac, p0, (k + 1) as nat) % m);
    }
}

/// Soundness of the arithmetization: a well-formed table that satisfies
/// the circuit's constraint system against public inputs `[p0, p1]`
/// forces `p1` to be the polynomial with the table's own coefficient
/// column, evaluated at `p0`, in the field.  The public sum cannot be
/// anything else.
pub proof fn theorem_public_sum_sound(
    gates: Seq<Gate>,
    plan: LayoutPlan,
    rows: Seq<RowVals>,
    pub_in: Seq<int>,
)
    requires
        gates == gates_spec(),
        plan_is_canonical(plan, rows.len()),
        rows.len() >= 1,
        rows_wf(rows),
        pub_in.len() == 2,
        constraints_hold(gates, plan, rows, pub_in),
    ensures
        0 <= pub_in[0] < modulus(),
        pub_in[1] == psum(a_column(rows), pub_in[0], rows.len()) % modulus(),
{
    let n = rows.len() as int;
    let m = modulus();
    let p0 = pub_in[0];

    // The two public-input bindings: slot 0 is row 0's `b`, slot 1 is the
    // last row's `acc_next`.
    assert(plan.bindings@[0] == bindings_spec(rows.len())[0]);
    assert(plan.bindings@[1] == bindings_spec(rows.len())[1]);
    assert(cell_value(rows, plan.bindings@[0].cell) == pub_in[0]);
    assert(cell_value(rows, plan.bindings@[1].cell) == pub_in[1]);
    assert(rows[0].b.value() == p0);
    assert(rows[n - 1].acc_next.value() == pub_in[1]);

    // The two constants: row 0 starts from state (1, 0).
    assert(plan.constants@[0] == constants_spec()[0]);
    assert(plan.constants@[1] == constants_spec()[1]);
    assert(cell_value(rows, plan.constants@[0].cell) == 1);
    assert(cell_value(rows, plan.constants@[1].cell) == 0);
    assert(rows[0].b_curr.value() == 1);
    assert(rows[0].acc_curr.value() == 0);

    // The `b` copies: every row's `b` equals row 0's, hence `p0`.
    assert forall|i: int| 0 <= i < n implies (#[trigger] rows[i]).b.value() == p0 by {
        if i > 0 {
            assert(plan.copies@[i - 1] == copies_spec(rows.len())[i - 1]);
            assert(copies_spec(rows.len())[i - 1] == (CopyPair {
                left: CellId { wire: Wire::B, row: 0 },
                right: CellId { wire: Wire::B, row: i as usize },
            }));
            assert(cell_value(rows, plan.copies@[i - 1].left) == cell_value(
                rows,
                plan.copies@[i - 1].right,
            ));
        }
    }

    // The chain copies: each row takes over the previous row's state.
    assert forall|i: int| 0 <= i < n - 1 implies #[trigger] chain_matches(rows, i) by {
        let jb = (n - 1) + i;
        let ja = 2 * (n - 1) + i;
        assert(plan.copies@[jb] == copies_spec(rows.len())[jb]);
        assert(plan.copies@[ja] == copies_spec(rows.len())[ja]);
        assert(copies_spec(rows.len())[jb] == (CopyPair {
            left: CellId { wire: Wire::BNext, row: i as usize },
            right: CellId { wire: Wire::BCurr, row: (i + 1) as usize },
        }));
        assert(copies_spec(rows.len())[ja] == (CopyPair {
            left: CellId { wire: Wire::AccNext, row: i as usize },
            right: CellId { wire: Wire::AccCurr, row: (i + 1) as usize },
        }));
        assert(cell_value(rows, plan.copies@[jb].left) == cell_value(rows, plan.copies@[jb].right));
        assert(cell_value(rows, plan.copies@[ja].left) == cell_value(rows, plan.copies@[ja].right));
    }

    // The gates, at every row (both selectors are enabled everywhere).
    assert forall|i: int|
        0 <= i < n implies (#[trigger] rows[i]).b_next.value() == (rows[i].b.value()
        * rows[i].b_curr.value()) % m && rows[i].acc_next.value() == (rows[i].acc_curr.value()
        + rows[i].a.value() * rows[i].b_curr.value()) % m by {
        assert(plan.enabled@[i] == enabled_spec(rows.len())[i]);
        assert(enabled_spec(rows.len())[i] == (SelectorAt { selector: 0, row: i as usize }));
        assert(gates[0] == gates_spec()[0]);
        assert(gate_holds(gates[0], rows[plan.enabled@[i].row as int]));
        lemma_gate_b_semantics(rows[i]);
        assert(plan.enabled@[n + i] == enabled_spec(rows.len())[n + i]);
        assert(enabled_spec(rows.len())[n + i] == (SelectorAt { selector: 1, row: i as usize }));
        assert(gates[1] == gates_spec()[1]);
        assert(gate_holds(gates[1], rows[plan.enabled@[n + i].row as int]));
        lemma_gate_acc_semantics(rows[i]);
    }

    assert(recurrence_facts(rows, p0));
    lemma_recurrence_state(rows, p0, n - 1);
}

/// Completeness of the arithmetization: the witness table generated from
/// coefficients `a` and scalar `b` satisfies the whole constraint system
/// against the public inputs `[b, sum]`, where `sum` is the table's final
/// accumulator.
pub proof fn theorem_assignment_satisfies(
    gates: Seq<Gate>,
    plan: LayoutPlan,
    rows: Seq<RowVals>,
    a: Seq<Scalar>,
    b: Scalar,
    pub_in: Seq<int>,
)
    requires
        gates == gates_spec(),
        plan_is_canonical(plan, rows.len()),
        rows.len() >= 1,
        table_matches(rows, a, b),
        pub_in == seq![b.value(), rows[rows.len() - 1].acc_next.value()],
    ensures
        constraints_hold(gates, plan, rows, pub_in),
{
    let n = rows.len() as int;
    let m = modulus();

    assert forall|gi: int, si: int|
        #![trigger gates[gi], plan.enabled@[si]]
        0 <= gi < gates.len() && 0 <= si < plan.enabled@.len() && gates[gi].selector
            == plan.enabled@[si].selector implies gate_holds(
        gates[gi],
        rows[plan.enabled@[si].row as int],
    ) by {
        assert(plan.enabled@[si] == enabled_spec(rows.len())[si]);
        if si < n {
            assert(enabled_spec(rows.len())[si] == (SelectorAt { selector: 0, row: si as usize }));
            assert(gi == 0);
            assert(row_matches(rows, a, b, si));
            lemma_gate_b_semantics(rows[si]);
        } else {
            let i = si - n;
            assert(enabled_spec(rows.len())[si] == (SelectorAt { selector: 1, row: i as usize }));
            assert(gi == 1);
            assert(row_matches(rows, a, b, i));
            lemma_gate_acc_semantics(rows[i]);
        }
    }

    assert forall|i: int|
        0 <= i < plan.copies@.len() implies cell_value(rows, (#[trigger] plan.copies@[i]).left)
        == cell_value(rows, plan.copies@[i].right) by {
        assert(plan.copies@[i] == copies_spec(rows.len())[i]);
        if i < n - 1 {
            assert(copies_spec(rows.len())[i] == (CopyPair {
                left: CellId { wire: Wire::B, row: 0 },
                right: CellId { wire: Wire::B, row: (i + 1) as usize },
            }));
            assert(row_matches(rows, a, b, 0));
            assert(row_matches(rows, a, b, i + 1));
        } else if i < 2 * (n - 1) {
            let j = i - (n - 1);
            assert(copies_spec(rows.len())[i] == (CopyPair {
                left: CellId { wire: Wire::BNext, row: j as usize },
                right: CellId { wire: Wire::BCurr, row: (j + 1) as usize },
            }));
            assert(chain_matches(rows, j));
        } else {
            let j = i - 2 * (n - 1);
            assert(copies_spec(rows.len())[i] == (CopyPair {
                left: CellId { wire: Wire::AccNext, row: j as usize },
                right: CellId { wire: Wire::AccCurr, row: (j + 1) as usize },
            }));
            assert(chain_matches(rows, j));
        }
    }

    assert forall|i: int|
        0 <= i < plan.constants@.len() implies cell_value(
        rows,
        (#[trigger] plan.constants@[i]).cell,
    ) == plan.constants@[i].value by {
        assert(plan.constants@[i] == constants_spec()[i]);
    }

    assert forall|i: int|
        0 <= i < plan.bindings@.len() implies cell_value(
        rows,
        (#[trigger] plan.bindings@[i]).cell,
    ) == pub_in[plan.bindings@[i].slot as int] by {
        assert(plan.bindings@[i] == bindings_spec(rows.len())[i]);
        if i == 0 {
            assert(row_matches(rows, a, b, 0));
        }
    }
}

/// The sum the generated table binds is the polynomial's value: the last
/// accumulator equals `sum_i a[i] * b^i` in the field.
pub proof fn theorem_table_evaluates(rows: Seq<RowVals>, a: Seq<Scalar>, b: Scalar)
    requires
        table_matches(rows, a, b),
        rows.len() >= 1,
        b.wf(),
    ensures
        rows[rows.len() - 1].acc_next.value() == psum(
            scalar_values(a),
            b.value(),
            rows.len(),
        ) % modulus(),
{
    let n = rows.len() as int;
    assert forall|i: int| 0 <= i < n implies (#[trigger] rows[i]).wf() by {
        assert(row_matches(rows, a, b, i));
    }
    assert forall|i: int| 0 <= i < n implies (#[trigger] rows[i]).b.value() == b.value() by {
        assert(row_matches(rows, a, b, i));
    }
    assert forall|i: int|
        0 <= i < n implies (#[trigger] rows[i]).b_next.value() == (rows[i].b.value()
        * rows[i].b_curr.value()) % modulus() by {
        assert(row_matches(rows, a, b, i));
    }
    assert forall|i: int|
        0 <= i < n implies (#[trigger] rows[i]).acc_next.value() == (rows[i].acc_curr.value()
        + rows[i].a.value() * rows[i].b_curr.value()) % modulus() by {
        assert(row_matches(rows, a, b, i));
    }
    assert(recurrence_facts(rows, b.value()));
    lemma_recurrence_state(rows, b.value(), n - 1);
    assert(a_column(rows) =~= scalar_values(a)) by {
        assert forall|i: int| 0 <= i < n implies a_column(rows)[i] == scalar_values(a)[i] by {
            assert(row_matches(rows, a, b, i));
        }
    }
}

/// Perturbing the public sum while keeping the same table must be
/// rejected: no nonzero change to slot 1 can still satisfy the
/// constraint system.
pub proof fn theorem_perturbed_sum_rejected(
    gates: Seq<Gate>,
    plan: LayoutPlan,
    rows: Seq<RowVals>,
    pub_in: Seq<int>,
    wrong: int,
)
    requires
        gates == gates_spec(),
        plan_is_canonical(plan, rows.len()),
        rows.len() >= 1,
        rows_wf(rows),
        pub_in.len() == 2,
        constraints_hold(gates, plan, rows, pub_in),
        wrong != pub_in[1],
    ensures
        !constraints_hold(gates, plan, rows, seq![pub_in[0], wrong]),
{
    if constraints_hold(gates, plan, rows, seq![pub_in[0], wrong]) {
        theorem_public_sum_sound(gates, plan, rows, pub_in);
        theorem_public_sum_sound(gates, plan, rows, seq![pub_in[0], wrong]);
        assert(false);
    }
}

/// The public-input binding is positional: if the same table is accepted
/// against both `[x, y]` and `[y, x]`, the two values coincide.  Swapped
/// public inputs are otherwise rejected.
pub proof fn theorem_binding_order_exact(
    gates: Seq<Gate>,
    plan: LayoutPlan,
    rows: Seq<RowVals>,
    x: int,
    y: int,
)
    requires
        gates == gates_spec(),
        plan_is_canonical(plan, rows.len()),
        rows.len() >= 1,
        constraints_hold(gates, plan, rows, seq![x, y]),
        constraints_hold(gates, plan, rows, seq![y, x]),
    ensures
        x == y,
{
    assert(plan.bindings@[0] == bindings_spec(rows.len())[0]);
    assert(cell_value(rows, plan.bindings@[0].cell) == seq![x, y][plan.bindings@[0].slot as int]);
    assert(cell_value(rows, plan.bindings@[0].cell) == seq![y, x][plan.bindings@[0].slot as int]);
}

/// Shape compilation is a pure function of the degree: two configurations
/// and two plans compiled for the same degree are identical.
pub proof fn theorem_shape_deterministic(
    c1: ConfigChainedEval,
    c2: ConfigChainedEval,
    p1: LayoutPlan,
    p2: LayoutPlan,
    n: nat,
)
    requires
        c1 == config_spec(),
        c2 == config_spec(),
        plan_is_canonical(p1, n),
        plan_is_canonical(p2, n),
    ensures
        c1 == c2,
        p1.rows == p2.rows,
        p1.enabled@ == p2.enabled@,
        p1.constants@ == p2.constants@,
        p1.copies@ == p2.copies@,
        p1.bindings@ == p2.bindings@,
{
}

/// At degree one the copy-constraint chain degenerates to no constraints
/// at all.
pub proof fn theorem_single_row_no_copies()
    ensures
        copies_spec(1).len() == 0,
{
}

/// Two different degrees compile to different layouts: the row count
/// differs and the final-sum binding points at a different cell, so keys
/// for one degree do not describe the circuit of another.
pub proof fn theorem_degree_pins_layout(p1: LayoutPlan, p2: LayoutPlan, n1: nat, n2: nat)
    requires
        n1 >= 1,
        n2 >= 1,
        n1 != n2,
        plan_is_canonical(p1, n1),
        plan_is_canonical(p2, n2),
    ensures
        p1.rows != p2.rows,
        p1.bindings@ != p2.bindings@,
{
    assert(bindings_spec(n1)[1].cell.row == (n1 - 1) as usize);
    assert(bindings_spec(n2)[1].cell.row == (n2 - 1) as usize);
    assert(p1.bindings@[1] != p2.bindings@[1]);
}

} // verus!
