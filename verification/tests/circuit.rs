//! End-to-end tests: the verified shape, plan and witness table driven
//! through the halo2 backend, from mock proving up to real keygen,
//! proof creation and verification.

use ff::{Field, PrimeField};
use halo2_link_circuit::circuit::{
    layout_plan, poly_eval, CircuitChainedPolyEval, LayoutError, Value as WitnessValue,
};
use halo2_link_circuit::field::Scalar;
use halo2_link_circuit::shape::{ChipChainedEval, ConfigChainedEval, Expr, RowVals, Wire};
use halo2_proofs::circuit::{AssignedCell, Layouter, SimpleFloorPlanner, Value};
use halo2_proofs::dev::MockProver;
use halo2_proofs::pasta::{EqAffine, Fp};
use halo2_proofs::plonk::{
    create_proof, keygen_pk, keygen_vk, verify_proof, Advice, Circuit, Column, ConstraintSystem,
    Error, Expression, Instance, ProvingKey, Selector, SingleVerifier, VerifyingKey,
};
use halo2_proofs::poly::commitment::Params;
use halo2_proofs::poly::Rotation;
use halo2_proofs::transcript::{Blake2bRead, Blake2bWrite, Challenge255};
use rand::rngs::SysRng;
use rand_core::UnwrapErr;

fn fp_to_scalar(f: &Fp) -> Scalar {
    Scalar { bytes: f.to_repr().to_vec() }
}

fn scalar_to_fp(s: &Scalar) -> Fp {
    let mut repr = [0u8; 32];
    repr.copy_from_slice(&s.bytes);
    Fp::from_repr(repr).unwrap()
}

fn wire_index(cfg: &ConfigChainedEval, w: &Wire) -> usize {
    match w {
        Wire::A => cfg.a,
        Wire::B => cfg.b,
        Wire::BCurr => cfg.b_curr,
        Wire::BNext => cfg.b_next,
        Wire::AccCurr => cfg.acc_curr,
        Wire::AccNext => cfg.acc_next,
    }
}

fn row_scalar<'r>(row: &'r RowVals, w: &Wire) -> &'r Scalar {
    match w {
        Wire::A => &row.a,
        Wire::B => &row.b,
        Wire::BCurr => &row.b_curr,
        Wire::BNext => &row.b_next,
        Wire::AccCurr => &row.acc_curr,
        Wire::AccNext => &row.acc_next,
    }
}

fn to_expression(
    e: &Expr,
    cfg: &ConfigChainedEval,
    advice: &[Column<Advice>],
    vc: &mut halo2_proofs::plonk::VirtualCells<'_, Fp>,
) -> Expression<Fp> {
    match e {
        Expr::Const(c) => Expression::Constant(Fp::from(*c)),
        Expr::Var(w) => vc.query_advice(advice[wire_index(cfg, w)], Rotation::cur()),
        Expr::Add(x, y) => {
            to_expression(x, cfg, advice, vc) + to_expression(y, cfg, advice, vc)
        }
        Expr::Sub(x, y) => {
            to_expression(x, cfg, advice, vc) - to_expression(y, cfg, advice, vc)
        }
        Expr::Mul(x, y) => {
            to_expression(x, cfg, advice, vc) * to_expression(y, cfg, advice, vc)
        }
    }
}

#[derive(Clone)]
struct TestConfig {
    advice: Vec<Column<Advice>>,
    instance: Column<Instance>,
    selectors: Vec<Selector>,
}

#[derive(Clone)]
struct ChainedPolyCircuit {
    a: Vec<Option<Fp>>,
    b: Option<Fp>,
    poly_degree: usize,
}

impl Circuit<Fp> for ChainedPolyCircuit {
    type Config = TestConfig;
    type FloorPlanner = SimpleFloorPlanner;

    fn without_witnesses(&self) -> Self {
        ChainedPolyCircuit { a: vec![None; self.a.len()], b: None, poly_degree: self.poly_degree }
    }

    fn configure(meta: &mut ConstraintSystem<Fp>) -> Self::Config {
        let cfg = ChipChainedEval::configure();
        let mut advice: Vec<Column<Advice>> = Vec::new();
        for _ in 0..6 {
            advice.push(meta.advice_column());
        }
        for c in &advice {
            meta.enable_equality(*c);
        }
        let instance = meta.instance_column();
        meta.enable_equality(instance);
        let constants = meta.fixed_column();
        meta.enable_constant(constants);
        let mut selectors: Vec<Selector> = Vec::new();
        selectors.push(meta.selector());
        selectors.push(meta.selector());
        let gates = ChipChainedEval::gates();
        meta.create_gate("chained_eval", |vc| {
            let mut constraints: Vec<Expression<Fp>> = Vec::new();
            for g in &gates {
                let sel = vc.query_selector(selectors[g.selector]);
                let poly = to_expression(&g.poly, &cfg, &advice, vc);
                constraints.push(sel * poly);
            }
            constraints
        });
        TestConfig { advice, instance, selectors }
    }

    fn synthesize(
        &self,
        config: Self::Config,
        mut layouter: impl Layouter<Fp>,
    ) -> Result<(), Error> {
        let n = self.poly_degree;
        let plan = layout_plan(n).map_err(|_| Error::Synthesis)?;
        let cfg = ChipChainedEval::configure();
        let lib_circuit = CircuitChainedPolyEval {
            a: self
                .a
                .iter()
                .map(|o| match o {
                    Some(f) => WitnessValue::Known(fp_to_scalar(f)),
                    None => WitnessValue::Unknown,
                })
                .collect(),
            b: match &self.b {
                Some(f) => WitnessValue::Known(fp_to_scalar(f)),
                None => WitnessValue::Unknown,
            },
            poly_degree: n,
        };
        let table: Option<Vec<RowVals>> = match lib_circuit.witness_table() {
            Ok(rows) => Some(rows),
            Err(LayoutError::UnknownWitness) => None,
            Err(_) => return Err(Error::Synthesis),
        };
        let wires = [Wire::A, Wire::B, Wire::BCurr, Wire::BNext, Wire::AccCurr, Wire::AccNext];
        let bound = layouter.assign_region(
            || "chained eval",
            |mut region| {
                for s in &plan.enabled {
                    config.selectors[s.selector].enable(&mut region, s.row)?;
                }
                let mut cells: Vec<Vec<AssignedCell<Fp, Fp>>> = Vec::new();
                for _ in 0..6 {
                    cells.push(Vec::new());
                }
                for i in 0..n {
                    for (pos, w) in wires.iter().enumerate() {
                        let value = match &table {
                            Some(rows) => Value::known(scalar_to_fp(row_scalar(&rows[i], w))),
                            None => Value::unknown(),
                        };
                        let cell = region.assign_advice(
                            || "cell",
                            config.advice[wire_index(&cfg, w)],
                            i,
                            || value,
                        )?;
                        cells[pos].push(cell);
                    }
                }
                for c in &plan.constants {
                    region.constrain_constant(
                        cells[wire_index(&cfg, &c.cell.wire)][c.cell.row].cell(),
                        Fp::from(c.value),
                    )?;
                }
                for p in &plan.copies {
                    region.constrain_equal(
                        cells[wire_index(&cfg, &p.left.wire)][p.left.row].cell(),
                        cells[wire_index(&cfg, &p.right.wire)][p.right.row].cell(),
                    )?;
                }
                let mut bound: Vec<AssignedCell<Fp, Fp>> = Vec::new();
                for b in &plan.bindings {
                    bound.push(cells[wire_index(&cfg, &b.cell.wire)][b.cell.row].clone());
                }
                Ok(bound)
            },
        )?;
        for (i, b) in plan.bindings.iter().enumerate() {
            layouter.constrain_instance(bound[i].cell(), config.instance, b.slot)?;
        }
        Ok(())
    }
}

fn circuit_with_witness(a: &[Fp], b: Fp) -> ChainedPolyCircuit {
    ChainedPolyCircuit {
        a: a.iter().map(|x| Some(*x)).collect(),
        b: Some(b),
        poly_degree: a.len(),
    }
}

fn keygen(k: u32, poly_degree: usize) -> (Params<EqAffine>, ProvingKey<EqAffine>) {
    let params: Params<EqAffine> = Params::new(k);
    let empty = ChainedPolyCircuit { a: vec![None; poly_degree], b: None, poly_degree };
    let vk = keygen_vk(&params, &empty).expect("keygen_vk should not fail");
    let pk = keygen_pk(&params, vk, &empty).expect("keygen_pk should not fail");
    (params, pk)
}

fn prove(params: &Params<EqAffine>, pk: &ProvingKey<EqAffine>, a: &[Fp], b: Fp, sum: Fp) -> Vec<u8> {
    let circuit = circuit_with_witness(a, b);
    let mut transcript = Blake2bWrite::<_, _, Challenge255<_>>::init(vec![]);
    create_proof(
        params,
        pk,
        &[circuit],
        &[&[&[b, sum]]],
        UnwrapErr(SysRng),
        &mut transcript,
    )
    .expect("proof generation should not fail");
    transcript.finalize()
}

fn verify(
    params: &Params<EqAffine>,
    vk: &VerifyingKey<EqAffine>,
    instance: &[Fp],
    proof_bytes: &[u8],
) -> bool {
    let strategy = SingleVerifier::new(params);
    let mut transcript = Blake2bRead::<_, _, Challenge255<_>>::init(proof_bytes);
    verify_proof(params, vk, strategy, &[&[instance]], &mut transcript).is_ok()
}

fn library_sum(a: &[Fp], b: Fp) -> Fp {
    let coeffs: Vec<Scalar> = a.iter().map(fp_to_scalar).collect();
    scalar_to_fp(&poly_eval(&coeffs, &fp_to_scalar(&b)))
}

#[test]
fn test_chained_eval_circuit() {
    // Evaluate sum_{i=0}^{3} a_i * b^i with a = [2,3,4,5], b = 10:
    // 2 + 3*10 + 4*100 + 5*1000 = 5432.  Public inputs are [b, sum].
    let a_vals = [2u64, 3, 4, 5].map(Fp::from);
    let b_val = Fp::from(10);
    let sum_val = Fp::from(5432);

    let circuit = circuit_with_witness(&a_vals, b_val);
    let public_inputs = vec![b_val, sum_val];
    let k = 6;

    let prover = MockProver::run(k, &circuit, vec![public_inputs.clone()]).unwrap();
    assert_eq!(
        prover.verify(),
        Ok(()),
        "Proof should succeed with correct input"
    );
}

#[test]
fn test_prove_and_verify_accepts_correct_sum() {
    let a_vals: Vec<Fp> = vec![
        Fp::random(&mut UnwrapErr(SysRng)),
        Fp::random(&mut UnwrapErr(SysRng)),
        Fp::random(&mut UnwrapErr(SysRng)),
        Fp::random(&mut UnwrapErr(SysRng)),
    ];
    let b_val = Fp::random(&mut UnwrapErr(SysRng));
    let sum_val = library_sum(&a_vals, b_val);

    let (params, pk) = keygen(6, 4);
    let proof_bytes = prove(&params, &pk, &a_vals, b_val, sum_val);
    assert!(verify(&params, pk.get_vk(), &[b_val, sum_val], &proof_bytes));
}

#[test]
fn test_perturbed_sum_rejected() {
    let a_vals = [2u64, 3, 4, 5].map(Fp::from);
    let b_val = Fp::from(10);
    let sum_val = Fp::from(5432);

    let (params, pk) = keygen(6, 4);
    let proof_bytes = prove(&params, &pk, &a_vals, b_val, sum_val);
    assert!(verify(&params, pk.get_vk(), &[b_val, sum_val], &proof_bytes));
    // The same proof with sum 5433 must be rejected.
    assert!(!verify(&params, pk.get_vk(), &[b_val, Fp::from(5433)], &proof_bytes));
    // Any other nonzero perturbation is rejected too.
    assert!(!verify(&params, pk.get_vk(), &[b_val, sum_val + Fp::one()], &proof_bytes));
    assert!(!verify(&params, pk.get_vk(), &[b_val, sum_val - Fp::one()], &proof_bytes));
}

#[test]
fn test_swapped_public_inputs_rejected() {
    let a_vals = [2u64, 3, 4, 5].map(Fp::from);
    let b_val = Fp::from(10);
    let sum_val = Fp::from(5432);

    let (params, pk) = keygen(6, 4);
    let proof_bytes = prove(&params, &pk, &a_vals, b_val, sum_val);
    assert!(verify(&params, pk.get_vk(), &[b_val, sum_val], &proof_bytes));
    // [sum, b] instead of [b, sum]: b != sum here, so this must reject.
    assert!(!verify(&params, pk.get_vk(), &[sum_val, b_val], &proof_bytes));
}

#[test]
fn test_degree_one_proves_and_verifies() {
    // A single term: sum = a_0, and the copy-constraint chain is empty.
    let a_vals = [Fp::from(7)];
    let b_val = Fp::from(3);
    let sum_val = Fp::from(7);

    let circuit = circuit_with_witness(&a_vals, b_val);
    let prover = MockProver::run(6, &circuit, vec![vec![b_val, sum_val]]).unwrap();
    assert_eq!(prover.verify(), Ok(()));

    let (params, pk) = keygen(6, 1);
    let proof_bytes = prove(&params, &pk, &a_vals, b_val, sum_val);
    assert!(verify(&params, pk.get_vk(), &[b_val, sum_val], &proof_bytes));
}

#[test]
fn test_independent_keygens_are_interchangeable() {
    // Shape compilation is a pure function of the degree: a proof built
    // under one key generation verifies under another's verifying key.
    let a_vals = [2u64, 3, 4, 5].map(Fp::from);
    let b_val = Fp::from(10);
    let sum_val = Fp::from(5432);

    let (params1, pk1) = keygen(6, 4);
    let (params2, pk2) = keygen(6, 4);
    let proof_one = prove(&params1, &pk1, &a_vals, b_val, sum_val);
    let proof_two = prove(&params2, &pk2, &a_vals, b_val, sum_val);
    assert!(verify(&params2, pk2.get_vk(), &[b_val, sum_val], &proof_one));
    assert!(verify(&params1, pk1.get_vk(), &[b_val, sum_val], &proof_two));
}

#[test]
fn test_degree_mismatch_rejected() {
    // A proof generated under degree 4 must be rejected, not crash, when
    // checked against a verifying key generated for degree 8.
    let a_vals = [2u64, 3, 4, 5].map(Fp::from);
    let b_val = Fp::from(10);
    let sum_val = Fp::from(5432);

    let (params4, pk4) = keygen(6, 4);
    let proof_bytes = prove(&params4, &pk4, &a_vals, b_val, sum_val);
    let (params8, pk8) = keygen(6, 8);
    assert!(!verify(&params8, pk8.get_vk(), &[b_val, sum_val], &proof_bytes));
}

#[test]
fn test_mock_prover_rejects_wrong_sum() {
    let a_vals = [2u64, 3, 4, 5].map(Fp::from);
    let circuit = circuit_with_witness(&a_vals, Fp::from(10));
    let prover = MockProver::run(6, &circuit, vec![vec![Fp::from(10), Fp::from(5433)]]).unwrap();
    assert!(prover.verify().is_err(), "Proof should fail with wrong sum");
}
