use std::collections::hash_map::DefaultHasher;
use std::hash::Hasher;

use bls12_381::{G1Affine, G2Affine};
use plonk::circuit::{Composer, PreProcessedCircuit};
use plonk::commitment::{Commitment, ProverKey, VerifierKey};
use plonk::constants::{k1, k2};
use plonk::domain::EvaluationDomain;
use plonk::error::Error;
use plonk::group::{G1Point, G2Point};
use plonk::polynomial::Polynomial;
use plonk::scalar::Scalar;
use plonk::snark::{Proof, ProofEvaluations};
use plonk::transcript::{Entries, Label, Residue, TranscriptProtocol};
use plonk::util::{multiscalar_mul, sum_points};

// ---------------------------------------------------------------------------
// A transcript for the tests: it keeps all that was written into it, and a
// challenge is a hash of that and of the label.
// ---------------------------------------------------------------------------

#[derive(Clone, Debug, PartialEq, Eq)]
struct TestTranscript {
    state: Vec<u8>,
}

impl TestTranscript {
    fn new(label: &[u8]) -> Self {
        let mut t = TestTranscript { state: Vec::new() };
        t.absorb(0, label, &[]);
        t
    }

    fn absorb(&mut self, tag: u8, label: &[u8], data: &[u8]) {
        self.state.push(tag);
        self.state.extend_from_slice(&(label.len() as u64).to_le_bytes());
        self.state.extend_from_slice(label);
        self.state.extend_from_slice(&(data.len() as u64).to_le_bytes());
        self.state.extend_from_slice(data);
    }
}

fn scalar_bytes(s: &Scalar) -> Vec<u8> {
    let mut out = Vec::new();
    for limb in [s.l0, s.l1, s.l2, s.l3] {
        out.extend_from_slice(&limb.to_le_bytes());
    }
    out
}

impl TranscriptProtocol for TestTranscript {
    fn entries(&self) -> Entries {
        unreachable!()
    }

    fn challenge(_entries: Entries, _label: Label) -> Residue {
        unreachable!()
    }

    fn append_commitment(&mut self, label: &[u8], comm: &Commitment) {
        self.absorb(1, label, &comm.0.to_compressed());
    }

    fn append_scalar(&mut self, label: &[u8], s: &Scalar) {
        self.absorb(2, label, &scalar_bytes(s));
    }

    fn challenge_scalar(&mut self, label: &[u8]) -> Scalar {
        let mut limbs = [0u64; 4];
        for (i, limb) in limbs.iter_mut().enumerate() {
            let mut h = DefaultHasher::new();
            h.write(&self.state);
            h.write(label);
            h.write_u8(i as u8);
            *limb = h.finish();
        }
        self.absorb(3, label, &[]);
        Scalar::from_raw(limbs)
    }
}

// ---------------------------------------------------------------------------
// A setup and a prover for the tests.
// ---------------------------------------------------------------------------

fn s(v: u64) -> Scalar {
    Scalar::from_u64(v)
}

fn to_outside(x: &Scalar) -> bls12_381::Scalar {
    bls12_381::Scalar::from_raw([x.l0, x.l1, x.l2, x.l3])
}

fn g1_times(x: &Scalar) -> G1Point {
    let p = G1Affine::from(G1Affine::generator() * to_outside(x));
    G1Point::from_compressed(&p.to_compressed()).unwrap()
}

fn g2_times(x: &Scalar) -> G2Point {
    let p = G2Affine::from(G2Affine::generator() * to_outside(x));
    G2Point::from_compressed(&p.to_compressed()).unwrap()
}

fn secret() -> Scalar {
    Scalar::from_raw([0x1234_5678_9abc_def0, 0x0fed_cba9_8765_4321, 0xdead_beef, 42])
}

/// The powers of the secret up to the sixteenth, in G1.
fn prover_key() -> ProverKey {
    let mut powers_of_g = Vec::new();
    let mut power = s(1);
    for _ in 0..16 {
        powers_of_g.push(g1_times(&power));
        power = power.mul(&secret());
    }
    ProverKey { powers_of_g }
}

fn commit_with(key: &ProverKey, p: &Polynomial) -> Commitment {
    let points = key.powers_of_g[..p.coeffs.len()].to_vec();
    Commitment(sum_points(&multiscalar_mul(&p.coeffs, &points)))
}

fn commit(p: &Polynomial) -> Commitment {
    commit_with(&prover_key(), p)
}

fn verifier_key() -> VerifierKey {
    VerifierKey { g: g1_times(&s(1)), h: g2_times(&s(1)), beta_h: g2_times(&secret()) }
}


fn mul(a: &Polynomial, b: &Polynomial) -> Polynomial {
    a.mul(b).unwrap()
}

/// `p(w x)` as a polynomial in `x`.
fn shifted(p: &Polynomial, w: &Scalar) -> Polynomial {
    let mut out = Vec::new();
    let mut power = s(1);
    for c in &p.coeffs {
        out.push(c.mul(&power));
        power = power.mul(w);
    }
    Polynomial::from_coefficients_vec(out)
}

/// Quotient and remainder of the division by `x^n - 1`.
fn divide_by_vanishing(p: &Polynomial, n: usize) -> (Polynomial, Polynomial) {
    let mut rem: Vec<Scalar> = p.coeffs.clone();
    if rem.len() <= n {
        return (Polynomial::zero(), Polynomial::from_coefficients_vec(rem));
    }
    let mut quot = vec![s(0); rem.len() - n];
    for i in (n..rem.len()).rev() {
        let c = rem[i];
        quot[i - n] = c;
        rem[i - n] = rem[i - n].add(&c);
        rem[i] = s(0);
    }
    (Polynomial::from_coefficients_vec(quot), Polynomial::from_coefficients_vec(rem))
}

fn chunk(p: &Polynomial, from: usize, to: usize) -> Polynomial {
    let mut out = Vec::new();
    for i in from..to {
        out.push(p.coefficient(i));
    }
    Polynomial::from_coefficients_vec(out)
}

/// The rows of a circuit: selectors, wire values and the images of the
/// wire places under the copy permutation.
struct Circuit {
    n: usize,
    q_m: Vec<Scalar>,
    q_l: Vec<Scalar>,
    q_r: Vec<Scalar>,
    q_o: Vec<Scalar>,
    q_c: Vec<Scalar>,
    w_l: Vec<Scalar>,
    w_r: Vec<Scalar>,
    w_o: Vec<Scalar>,
    sigma_l: Vec<Scalar>,
    sigma_r: Vec<Scalar>,
    sigma_o: Vec<Scalar>,
}

struct Compiled {
    domain: EvaluationDomain,
    q_m: Polynomial,
    q_l: Polynomial,
    q_r: Polynomial,
    q_o: Polynomial,
    q_c: Polynomial,
    sigma_l: Polynomial,
    sigma_r: Polynomial,
    sigma_o: Polynomial,
    public: PreProcessedCircuit,
}

fn elements(domain: &EvaluationDomain) -> Vec<Scalar> {
    let mut out = Vec::new();
    let mut x = s(1);
    for _ in 0..domain.size {
        out.push(x);
        x = x.mul(&domain.group_gen);
    }
    out
}

/// A circuit of four rows in which no wire is tied to another.
fn blank_circuit() -> Circuit {
    let n = 4;
    let domain = EvaluationDomain::new(n).unwrap();
    let h = elements(&domain);
    Circuit {
        n,
        q_m: vec![s(0); n],
        q_l: vec![s(0); n],
        q_r: vec![s(0); n],
        q_o: vec![s(0); n],
        q_c: vec![s(0); n],
        w_l: vec![s(0); n],
        w_r: vec![s(0); n],
        w_o: vec![s(0); n],
        sigma_l: h.clone(),
        sigma_r: h.iter().map(|x| x.mul(&k1())).collect(),
        sigma_o: h.iter().map(|x| x.mul(&k2())).collect(),
    }
}

/// `a * b = c` in row 0, and `c` given as a public input in row 1.
fn multiplication_circuit(a: u64, b: u64, c: u64) -> Circuit {
    let mut circuit = blank_circuit();
    let domain = EvaluationDomain::new(circuit.n).unwrap();
    let h = elements(&domain);
    // a b - c = 0
    circuit.q_m[0] = s(1);
    circuit.q_o[0] = s(1).neg();
    circuit.w_l[0] = s(a);
    circuit.w_r[0] = s(b);
    circuit.w_o[0] = s(c);
    // -a + public input = 0
    circuit.q_l[1] = s(1).neg();
    circuit.w_l[1] = s(c);
    // the output of row 0 is the left input of row 1
    circuit.sigma_o[0] = h[1];
    circuit.sigma_l[1] = h[0].mul(&k2());
    circuit
}

/// `a + b = c` in row 0.
fn addition_circuit(a: u64, b: u64, c: u64) -> Circuit {
    let mut circuit = blank_circuit();
    circuit.q_l[0] = s(1);
    circuit.q_r[0] = s(1);
    circuit.q_o[0] = s(1).neg();
    circuit.w_l[0] = s(a);
    circuit.w_r[0] = s(b);
    circuit.w_o[0] = s(c);
    circuit
}

fn interpolate(domain: &EvaluationDomain, values: &Vec<Scalar>) -> Polynomial {
    Polynomial::from_coefficients_vec(domain.ifft(values))
}

fn compile(circuit: &Circuit) -> Compiled {
    compile_with(circuit, &prover_key(), &EvaluationDomain::new(circuit.n).unwrap())
}

fn compile_with(circuit: &Circuit, key: &ProverKey, domain: &EvaluationDomain) -> Compiled {
    let commit = |p: &Polynomial| commit_with(key, p);
    let domain = *domain;
    let q_m = interpolate(&domain, &circuit.q_m);
    let q_l = interpolate(&domain, &circuit.q_l);
    let q_r = interpolate(&domain, &circuit.q_r);
    let q_o = interpolate(&domain, &circuit.q_o);
    let q_c = interpolate(&domain, &circuit.q_c);
    let sigma_l = interpolate(&domain, &circuit.sigma_l);
    let sigma_r = interpolate(&domain, &circuit.sigma_r);
    let sigma_o = interpolate(&domain, &circuit.sigma_o);
    let public = PreProcessedCircuit {
        n: circuit.n,
        qm: commit(&q_m),
        ql: commit(&q_l),
        qr: commit(&q_r),
        qo: commit(&q_o),
        qc: commit(&q_c),
        left_sigma: commit(&sigma_l),
        right_sigma: commit(&sigma_r),
        out_sigma: commit(&sigma_o),
    };
    Compiled { domain, q_m, q_l, q_r, q_o, q_c, sigma_l, sigma_r, sigma_o, public }
}

fn prove(circuit: &Circuit, compiled: &Compiled, pub_inputs: &Vec<Scalar>) -> Proof {
    let mut transcript = TestTranscript::new(b"plonk");
    prove_with(circuit, compiled, pub_inputs, &prover_key(), &mut transcript)
}

fn prove_with<T: TranscriptProtocol>(
    circuit: &Circuit,
    compiled: &Compiled,
    pub_inputs: &Vec<Scalar>,
    key: &ProverKey,
    transcript: &mut T,
) -> Proof {
    let commit = |p: &Polynomial| commit_with(key, p);
    let domain = &compiled.domain;
    let n = circuit.n;
    let h = elements(domain);
    let omega = domain.group_gen;

    // Round 1: the wires
    let a = interpolate(domain, &circuit.w_l);
    let b = interpolate(domain, &circuit.w_r);
    let c = interpolate(domain, &circuit.w_o);
    let a_comm = commit(&a);
    let b_comm = commit(&b);
    let c_comm = commit(&c);
    transcript.append_commitment(b"w_l", &a_comm);
    transcript.append_commitment(b"w_r", &b_comm);
    transcript.append_commitment(b"w_o", &c_comm);

    // Round 2: the permutation accumulator
    let beta = transcript.challenge_scalar(b"beta");
    transcript.append_scalar(b"beta", &beta);
    let gamma = transcript.challenge_scalar(b"gamma");
    let mut acc = vec![s(1)];
    for i in 0..n - 1 {
        let num = circuit.w_l[i]
            .add(&beta.mul(&h[i]))
            .add(&gamma)
            .mul(&circuit.w_r[i].add(&beta.mul(&k1()).mul(&h[i])).add(&gamma))
            .mul(&circuit.w_o[i].add(&beta.mul(&k2()).mul(&h[i])).add(&gamma));
        let den = circuit.w_l[i]
            .add(&beta.mul(&circuit.sigma_l[i]))
            .add(&gamma)
            .mul(&circuit.w_r[i].add(&beta.mul(&circuit.sigma_r[i])).add(&gamma))
            .mul(&circuit.w_o[i].add(&beta.mul(&circuit.sigma_o[i])).add(&gamma));
        let next = acc[i].mul(&num).mul(&den.invert().unwrap());
        acc.push(next);
    }
    let z = interpolate(domain, &acc);
    let z_comm = commit(&z);
    transcript.append_commitment(b"z", &z_comm);

    // Round 3: the quotient
    let alpha = transcript.challenge_scalar(b"alpha");
    let alpha_sq = alpha.mul(&alpha);
    let alpha_cu = alpha_sq.mul(&alpha);
    let pi = interpolate(domain, pub_inputs);
    let x = Polynomial::from_coefficients_vec(vec![s(0), s(1)]);
    let mut first = vec![s(0); n];
    first[0] = s(1);
    let l1 = interpolate(domain, &first);

    let gate = mul(&mul(&a, &b), &compiled.q_m)
        .add(&mul(&a, &compiled.q_l))
        .add(&mul(&b, &compiled.q_r))
        .add(&mul(&c, &compiled.q_o))
        .add(&compiled.q_c)
        .add(&pi);
    let id_l = a.add(&x.mul_scalar(&beta)).add_scalar(&gamma);
    let id_r = b.add(&x.mul_scalar(&beta.mul(&k1()))).add_scalar(&gamma);
    let id_o = c.add(&x.mul_scalar(&beta.mul(&k2()))).add_scalar(&gamma);
    let perm_1 = mul(&mul(&mul(&id_l, &id_r), &id_o), &z);
    let sig_l = a.add(&compiled.sigma_l.mul_scalar(&beta)).add_scalar(&gamma);
    let sig_r = b.add(&compiled.sigma_r.mul_scalar(&beta)).add_scalar(&gamma);
    let sig_o = c.add(&compiled.sigma_o.mul_scalar(&beta)).add_scalar(&gamma);
    let z_shifted = shifted(&z, &omega);
    let perm_2 = mul(&mul(&mul(&sig_l, &sig_r), &sig_o), &z_shifted);
    let start = mul(&z.sub_scalar(&s(1)), &l1);
    let numerator = gate
        .mul_scalar(&alpha)
        .add(&perm_1.sub(&perm_2).mul_scalar(&alpha_sq))
        .add(&start.mul_scalar(&alpha_cu));
    let (t, remainder) = divide_by_vanishing(&numerator, n);
    assert!(remainder.is_zero(), "the circuit is not satisfied");
    let t_lo = chunk(&t, 0, n);
    let t_mid = chunk(&t, n, 2 * n);
    let t_hi = chunk(&t, 2 * n, 3 * n);
    assert!(t.coeffs.len() <= 3 * n);
    let t_lo_comm = commit(&t_lo);
    let t_mid_comm = commit(&t_mid);
    let t_hi_comm = commit(&t_hi);
    transcript.append_commitment(b"t_lo", &t_lo_comm);
    transcript.append_commitment(b"t_mid", &t_mid_comm);
    transcript.append_commitment(b"t_hi", &t_hi_comm);

    // Round 4: the openings
    let zeta = transcript.challenge_scalar(b"z");
    let a_eval = a.evaluate(&zeta);
    let b_eval = b.evaluate(&zeta);
    let c_eval = c.evaluate(&zeta);
    let left_sigma_eval = compiled.sigma_l.evaluate(&zeta);
    let right_sigma_eval = compiled.sigma_r.evaluate(&zeta);
    let perm_eval = z.evaluate(&zeta.mul(&omega));
    let l1_eval = l1.evaluate(&zeta);
    let zeta_n = zeta.pow(&[n as u64, 0, 0, 0]);
    let zeta_2n = zeta.pow(&[2 * n as u64, 0, 0, 0]);
    let t_at_zeta = t_lo.add(&t_mid.mul_scalar(&zeta_n)).add(&t_hi.mul_scalar(&zeta_2n));
    let t_eval = t_at_zeta.evaluate(&zeta);
    assert_eq!(t_eval, t.evaluate(&zeta));

    let gate_part = compiled
        .q_m
        .mul_scalar(&a_eval.mul(&b_eval))
        .add(&compiled.q_l.mul_scalar(&a_eval))
        .add(&compiled.q_r.mul_scalar(&b_eval))
        .add(&compiled.q_o.mul_scalar(&c_eval))
        .add(&compiled.q_c)
        .mul_scalar(&alpha);
    let id_factor = a_eval
        .add(&beta.mul(&zeta))
        .add(&gamma)
        .mul(&b_eval.add(&beta.mul(&k1()).mul(&zeta)).add(&gamma))
        .mul(&c_eval.add(&beta.mul(&k2()).mul(&zeta)).add(&gamma));
    let sigma_factor = a_eval
        .add(&beta.mul(&left_sigma_eval))
        .add(&gamma)
        .mul(&b_eval.add(&beta.mul(&right_sigma_eval)).add(&gamma))
        .mul(&beta)
        .mul(&perm_eval);
    let perm_part = z
        .mul_scalar(&id_factor)
        .sub(&compiled.sigma_o.mul_scalar(&sigma_factor))
        .mul_scalar(&alpha_sq);
    let start_part = z.mul_scalar(&l1_eval.mul(&alpha_cu));
    let lin = gate_part.add(&perm_part).add(&start_part);
    let lin_poly_eval = lin.evaluate(&zeta);

    transcript.append_scalar(b"a_eval", &a_eval);
    transcript.append_scalar(b"b_eval", &b_eval);
    transcript.append_scalar(b"c_eval", &c_eval);
    transcript.append_scalar(b"left_sig_eval", &left_sigma_eval);
    transcript.append_scalar(b"right_sig_eval", &right_sigma_eval);
    transcript.append_scalar(b"perm_eval", &perm_eval);
    transcript.append_scalar(b"t_eval", &t_eval);
    transcript.append_scalar(b"r_eval", &lin_poly_eval);

    // Round 5: the opening polynomials
    let v = transcript.challenge_scalar(b"v");
    let mut v_pow = vec![s(1)];
    for i in 0..7 {
        let next = v_pow[i].mul(&v);
        v_pow.push(next);
    }
    let batched = t_at_zeta
        .sub_scalar(&t_eval)
        .add(&lin.sub_scalar(&lin_poly_eval).mul_scalar(&v_pow[1]))
        .add(&a.sub_scalar(&a_eval).mul_scalar(&v_pow[2]))
        .add(&b.sub_scalar(&b_eval).mul_scalar(&v_pow[3]))
        .add(&c.sub_scalar(&c_eval).mul_scalar(&v_pow[4]))
        .add(&compiled.sigma_l.sub_scalar(&left_sigma_eval).mul_scalar(&v_pow[5]))
        .add(&compiled.sigma_r.sub_scalar(&right_sigma_eval).mul_scalar(&v_pow[6]));
    assert_eq!(batched.evaluate(&zeta), s(0));
    let w_z = batched.ruffini(zeta);
    let w_zw = z.sub_scalar(&perm_eval).mul_scalar(&v_pow[7]).ruffini(zeta.mul(&omega));
    let w_z_comm = commit(&w_z);
    let w_zw_comm = commit(&w_zw);

    Proof {
        a_comm,
        b_comm,
        c_comm,
        z_comm,
        t_lo_comm,
        t_mid_comm,
        t_hi_comm,
        w_z_comm,
        w_zw_comm,
        evaluations: ProofEvaluations {
            a_eval,
            b_eval,
            c_eval,
            left_sigma_eval,
            right_sigma_eval,
            lin_poly_eval,
            perm_eval,
        },
    }
}

/// A circuit with its public inputs, as a composer.
struct TestComposer {
    circuit: Circuit,
    pub_inputs: Vec<Scalar>,
    compiled: Option<Compiled>,
}

impl Composer for TestComposer {
    fn circuit_size(&self) -> usize {
        self.circuit.n
    }

    fn preprocess<T: TranscriptProtocol>(
        &mut self,
        commit_key: &ProverKey,
        _transcript: &mut T,
        domain: &EvaluationDomain,
    ) -> PreProcessedCircuit {
        let compiled = compile_with(&self.circuit, commit_key, domain);
        let public = compiled.public;
        self.compiled = Some(compiled);
        public
    }

    fn prove<T: TranscriptProtocol>(
        &mut self,
        commit_key: &ProverKey,
        _preprocessed_circuit: &PreProcessedCircuit,
        transcript: &mut T,
    ) -> Proof {
        let compiled = self.compiled.as_ref().unwrap();
        prove_with(&self.circuit, compiled, &self.pub_inputs, commit_key, transcript)
    }
}

fn verify(proof: &Proof, compiled: &Compiled, pub_inputs: &Vec<Scalar>) -> Result<bool, Error> {
    let mut transcript = TestTranscript::new(b"plonk");
    proof.verify(&compiled.public, &mut transcript, &verifier_key(), pub_inputs)
}

fn multiplication_proof() -> (Proof, Compiled, Vec<Scalar>) {
    let circuit = multiplication_circuit(3, 4, 12);
    let compiled = compile(&circuit);
    let pub_inputs = vec![s(0), s(12)];
    let proof = prove(&circuit, &compiled, &pub_inputs);
    (proof, compiled, pub_inputs)
}

// ---------------------------------------------------------------------------
// The scenarios
// ---------------------------------------------------------------------------

#[test]
fn verify_accepts_multiplication_gate_with_public_input() {
    let (proof, compiled, pub_inputs) = multiplication_proof();
    assert_eq!(verify(&proof, &compiled, &pub_inputs), Ok(true));
}

#[test]
fn verify_rejects_changed_public_input() {
    let (proof, compiled, _) = multiplication_proof();
    assert_eq!(verify(&proof, &compiled, &vec![s(0), s(13)]), Ok(false));
    assert_eq!(verify(&proof, &compiled, &vec![s(1), s(12)]), Ok(false));
    assert_eq!(verify(&proof, &compiled, &vec![]), Ok(false));
}

#[test]
fn verify_accepts_addition_gate_without_public_inputs() {
    let circuit = addition_circuit(2, 5, 7);
    let compiled = compile(&circuit);
    let pub_inputs = vec![];
    let proof = prove(&circuit, &compiled, &pub_inputs);
    assert_eq!(verify(&proof, &compiled, &pub_inputs), Ok(true));
    // zeros up to the number of gates are the same public inputs
    assert_eq!(verify(&proof, &compiled, &vec![s(0); 4]), Ok(true));
}

#[test]
fn verify_rejects_tampered_a_eval() {
    let (mut proof, compiled, pub_inputs) = multiplication_proof();
    proof.evaluations.a_eval = proof.evaluations.a_eval.add(&s(1));
    assert_eq!(verify(&proof, &compiled, &pub_inputs), Ok(false));
}

#[test]
fn verify_rejects_each_changed_evaluation() {
    let (proof, compiled, pub_inputs) = multiplication_proof();
    for i in 0..7 {
        let mut bad = proof;
        let e = &mut bad.evaluations;
        let target = match i {
            0 => &mut e.a_eval,
            1 => &mut e.b_eval,
            2 => &mut e.c_eval,
            3 => &mut e.left_sigma_eval,
            4 => &mut e.right_sigma_eval,
            5 => &mut e.lin_poly_eval,
            _ => &mut e.perm_eval,
        };
        *target = target.add(&s(1));
        assert_eq!(verify(&bad, &compiled, &pub_inputs), Ok(false), "evaluation {}", i);
    }
}

#[test]
fn verify_rejects_each_commitment_replaced_by_identity() {
    let (proof, compiled, pub_inputs) = multiplication_proof();
    for i in 0..9 {
        let mut bad = proof;
        let target = match i {
            0 => &mut bad.a_comm,
            1 => &mut bad.b_comm,
            2 => &mut bad.c_comm,
            3 => &mut bad.z_comm,
            4 => &mut bad.t_lo_comm,
            5 => &mut bad.t_mid_comm,
            6 => &mut bad.t_hi_comm,
            7 => &mut bad.w_z_comm,
            _ => &mut bad.w_zw_comm,
        };
        *target = Commitment::empty();
        assert_eq!(verify(&bad, &compiled, &pub_inputs), Ok(false), "commitment {}", i);
    }
}

#[test]
fn verify_rejects_empty_proof() {
    let (_, compiled, pub_inputs) = multiplication_proof();
    assert_eq!(verify(&Proof::empty(), &compiled, &pub_inputs), Ok(false));
}

#[test]
fn verify_is_deterministic() {
    let (proof, compiled, pub_inputs) = multiplication_proof();
    let mut first = TestTranscript::new(b"plonk");
    let mut second = TestTranscript::new(b"plonk");
    let r1 = proof.verify(&compiled.public, &mut first, &verifier_key(), &pub_inputs);
    let r2 = proof.verify(&compiled.public, &mut second, &verifier_key(), &pub_inputs);
    assert_eq!(r1, r2);
    assert_eq!(first, second);
    assert_ne!(first, TestTranscript::new(b"plonk"));
}

#[test]
fn verify_depends_on_the_transcript() {
    let (proof, compiled, pub_inputs) = multiplication_proof();
    let mut other = TestTranscript::new(b"another protocol");
    assert_eq!(
        proof.verify(&compiled.public, &mut other, &verifier_key(), &pub_inputs),
        Ok(false)
    );
}

#[test]
fn verify_fails_on_invalid_circuit_size() {
    let (proof, compiled, pub_inputs) = multiplication_proof();
    for n in [0usize, 3, 5, 6, 12] {
        let mut public = compiled.public;
        public.n = n;
        let mut transcript = TestTranscript::new(b"plonk");
        assert_eq!(
            proof.verify(&public, &mut transcript, &verifier_key(), &pub_inputs),
            Err(Error::InvalidCircuitSize)
        );
        assert_eq!(transcript, TestTranscript::new(b"plonk"));
    }
}

#[test]
fn verify_fails_on_too_many_public_inputs() {
    let (proof, compiled, _) = multiplication_proof();
    let mut transcript = TestTranscript::new(b"plonk");
    assert_eq!(
        proof.verify(&compiled.public, &mut transcript, &verifier_key(), &vec![s(0); 5]),
        Err(Error::PublicInputTooLong)
    );
    assert_eq!(transcript, TestTranscript::new(b"plonk"));
}

#[test]
fn set_witness_poly_commitments_sets_three_commitments() {
    let mut proof = Proof::empty();
    let a = Commitment(g1_times(&s(2)));
    let b = Commitment(g1_times(&s(3)));
    let c = Commitment(g1_times(&s(5)));
    proof.set_witness_poly_commitments(&a, &b, &c);
    assert_eq!(proof.a_comm, a);
    assert_eq!(proof.b_comm, b);
    assert_eq!(proof.c_comm, c);
    assert_eq!(proof.z_comm, Commitment::empty());
    assert_eq!(proof.evaluations, Proof::empty().evaluations);
}

#[test]
fn empty_commitment_is_the_point_at_infinity() {
    let mut expected = [0u8; 48];
    expected[0] = 0xc0;
    assert_eq!(Commitment::empty().0.to_compressed(), expected);
    assert_eq!(G1Point::identity().to_compressed(), G1Affine::identity().to_compressed());
}

#[test]
fn points_are_checked_when_decoded() {
    assert!(G1Point::from_compressed(&[0u8; 48]).is_none());
    assert!(G2Point::from_compressed(&[0u8; 96]).is_none());
    let g = G1Affine::generator().to_compressed();
    assert_eq!(G1Point::from_compressed(&g).unwrap().to_compressed(), g);
    let h = G2Affine::generator().to_compressed();
    assert_eq!(G2Point::from_compressed(&h).unwrap().to_compressed(), h);
}

// ---------------------------------------------------------------------------
// The formulas, on small numbers
// ---------------------------------------------------------------------------

fn small_proof() -> Proof {
    let mut proof = Proof::empty();
    proof.evaluations = ProofEvaluations {
        a_eval: s(2),
        b_eval: s(3),
        c_eval: s(5),
        left_sigma_eval: s(7),
        right_sigma_eval: s(11),
        lin_poly_eval: s(1000),
        perm_eval: s(13),
    };
    proof
}

#[test]
fn quotient_evaluation_on_small_numbers() {
    let proof = small_proof();
    // alpha = 2, beta = 1, gamma = 1, pi = 4, l1 = 3, z_h = 1, z_hat = 13
    // a = 1000 + 4 * 2 = 1008
    // b = (2 + 7 + 1) (3 + 11 + 1) ((5 + 1) * 13 * 4) = 10 * 15 * 312 = 46800
    // c = 3 * 8 = 24
    let t = proof
        .compute_quotient_evaluation(s(4), s(2), s(1), s(1), s(3), s(1), s(13))
        .unwrap();
    assert_eq!(t, s(1008).sub(&s(46800)).sub(&s(24)));
    // with z_h = 2 the same is halved
    let t2 = proof
        .compute_quotient_evaluation(s(4), s(2), s(1), s(1), s(3), s(2), s(13))
        .unwrap();
    assert_eq!(t2.add(&t2), t);
}

#[test]
fn quotient_evaluation_fails_on_the_domain() {
    let proof = small_proof();
    assert_eq!(
        proof.compute_quotient_evaluation(s(4), s(2), s(1), s(1), s(3), s(0), s(13)),
        Err(Error::ZeroDivision)
    );
}

#[test]
fn batch_evaluation_commitment_on_small_numbers() {
    let proof = small_proof();
    // u = 3, v = 2, t = 9:
    // 9 + 2 * 1000 + 4 * 2 + 8 * 3 + 16 * 5 + 32 * 7 + 64 * 11 + 128 * (3 * 13)
    let sum = 9 + 2000 + 8 + 24 + 80 + 224 + 704 + 128 * 39;
    let e = proof.compute_batch_evaluation_commitment(s(3), s(2), s(9), &verifier_key());
    assert_eq!(e, g1_times(&s(sum)));
}

fn circuit_of_generators(n: usize) -> PreProcessedCircuit {
    let g = Commitment(g1_times(&s(1)));
    PreProcessedCircuit {
        n,
        qm: g,
        ql: g,
        qr: g,
        qo: g,
        qc: g,
        left_sigma: g,
        right_sigma: g,
        out_sigma: g,
    }
}

#[test]
fn partial_opening_commitment_on_small_numbers() {
    let mut proof = small_proof();
    proof.z_comm = Commitment(g1_times(&s(1)));
    // alpha = 2, beta = 1, gamma = 1, z = 1, u = 3, v = 1, l1 = 3
    let d = proof.compute_partial_opening_commitment(
        s(2),
        s(1),
        s(1),
        s(1),
        s(3),
        s(1),
        s(3),
        &circuit_of_generators(4),
    );
    // selectors: 2*3*2 + 2*2 + 3*2 + 5*2 + 2 = 34
    // x = (2 + 1 + 1) (3 + 7 + 1) (5 + 13 + 1) * 4 = 4 * 11 * 19 * 4 = 3344
    // r = 3 * 8 = 24, s = 3
    // y = (2 + 7 + 1) (3 + 11 + 1) (13 * 4) = 10 * 15 * 52 = 7800
    let total = s(34 + 3344 + 24 + 3).sub(&s(7800));
    assert_eq!(d, g1_times(&total));
}

#[test]
fn batch_opening_commitment_on_small_numbers() {
    let mut proof = small_proof();
    let g = Commitment(g1_times(&s(1)));
    proof.set_witness_poly_commitments(&g, &g, &g);
    proof.t_lo_comm = g;
    proof.t_mid_comm = g;
    proof.t_hi_comm = g;
    // z = 2, v = 3, n = 4, d = 5 g:
    // 1 + 2^4 + 2^8 + 5 + 9 + 27 + 81 + 243 + 729
    let f = proof.compute_batch_opening_commitment(
        s(2),
        s(3),
        g1_times(&s(5)),
        &circuit_of_generators(4),
    );
    assert_eq!(f, g1_times(&s(1 + 16 + 256 + 5 + 9 + 27 + 81 + 243 + 729)));
}

#[test]
fn check_opening_agrees_with_verify() {
    let (proof, compiled, pub_inputs) = multiplication_proof();
    let mut transcript = TestTranscript::new(b"plonk");
    let (beta, gamma, alpha, zeta) = proof.draw_round_challenges(&mut transcript);
    let domain = compiled.domain;
    let z_h = domain.evaluate_vanishing_polynomial(zeta);
    let l1 = domain.evaluate_all_lagrange_coefficients(zeta)[0];
    let pi = interpolate(&domain, &pub_inputs).evaluate(&zeta);
    let t = proof
        .compute_quotient_evaluation(pi, alpha, beta, gamma, l1, z_h, proof.evaluations.perm_eval)
        .unwrap();
    let (v, u) = proof.draw_opening_challenges(&mut transcript, &t);
    let vk = verifier_key();
    assert!(proof.check_opening(
        &compiled.public, &vk, &domain, alpha, beta, gamma, zeta, u, v, l1, t
    ));
    assert!(!proof.check_opening(
        &compiled.public, &vk, &domain, alpha, beta, gamma, zeta, v, u, l1, t
    ));
}

// ---------------------------------------------------------------------------
// Proofs as bytes
// ---------------------------------------------------------------------------

#[test]
fn proof_bytes_round_trip() {
    let (proof, compiled, pub_inputs) = multiplication_proof();
    let bytes = proof.to_bytes();
    assert_eq!(bytes.len(), 9 * 48 + 7 * 32);
    assert_eq!(&bytes[0..48], &proof.a_comm.0.to_compressed()[..]);
    assert_eq!(&bytes[384..432], &proof.w_zw_comm.0.to_compressed()[..]);
    assert_eq!(&bytes[432..464], &proof.evaluations.a_eval.to_bytes()[..]);
    assert_eq!(&bytes[592..624], &proof.evaluations.perm_eval.to_bytes()[..]);
    assert_eq!(&bytes[624..656], &proof.evaluations.lin_poly_eval.to_bytes()[..]);
    let back = Proof::from_bytes(&bytes).unwrap();
    assert_eq!(back, proof);
    assert_eq!(verify(&back, &compiled, &pub_inputs), Ok(true));
}

#[test]
fn empty_proof_bytes() {
    let bytes = Proof::empty().to_bytes();
    let mut expected = vec![0u8; 656];
    for k in 0..9 {
        expected[48 * k] = 0xc0;
    }
    assert_eq!(bytes, expected);
    assert_eq!(Proof::from_bytes(&bytes), Ok(Proof::empty()));
}

#[test]
fn malformed_proofs_are_refused() {
    let (proof, _, _) = multiplication_proof();
    let bytes = proof.to_bytes();
    // a wrong length
    assert_eq!(Proof::from_bytes(&bytes[..655]), Err(Error::MalformedProof));
    assert_eq!(Proof::from_bytes(&[]), Err(Error::MalformedProof));
    let mut long = bytes.clone();
    long.push(0);
    assert_eq!(Proof::from_bytes(&long), Err(Error::MalformedProof));
    // a commitment that is no point: the compression flag is missing
    for k in 0..9 {
        let mut bad = bytes.clone();
        bad[48 * k] &= 0x7f;
        assert_eq!(Proof::from_bytes(&bad), Err(Error::MalformedProof));
    }
    // an opening that is not below the modulus
    for k in 0..7 {
        let mut bad = bytes.clone();
        for b in &mut bad[432 + 32 * k..432 + 32 * k + 32] {
            *b = 0xff;
        }
        assert_eq!(Proof::from_bytes(&bad), Err(Error::MalformedProof));
    }
}

#[test]
fn scalar_bytes_are_little_endian_and_canonical() {
    assert_eq!(s(0x0102).to_bytes()[..3], [0x02, 0x01, 0x00]);
    let x = Scalar { l0: 1, l1: 2, l2: 3, l3: 4 };
    let bytes = x.to_bytes();
    assert_eq!(bytes.len(), 32);
    assert_eq!((bytes[0], bytes[8], bytes[16], bytes[24]), (1, 2, 3, 4));
    assert_eq!(Scalar::from_bytes(&bytes), Some(x));
    assert_eq!(Scalar::from_bytes(&bytes[..31]), None);
    // the modulus itself is refused, the number before it is taken
    let minus_one = s(1).neg();
    assert!(minus_one.is_canonical());
    assert_eq!(Scalar::from_bytes(&minus_one.to_bytes()), Some(minus_one));
    let modulus = Scalar { l0: minus_one.l0 + 1, ..minus_one };
    assert!(!modulus.is_canonical());
    assert_eq!(Scalar::from_bytes(&modulus.to_bytes()), None);
    assert!(!Scalar { l0: 0, l1: 0, l2: 0, l3: u64::MAX }.is_canonical());
}

#[test]
fn multiscalar_mul_multiplies_pair_by_pair() {
    let scalars = vec![s(2), s(3), s(0)];
    let points = vec![g1_times(&s(5)), g1_times(&s(7)), g1_times(&s(11))];
    let products = multiscalar_mul(&scalars, &points);
    assert_eq!(products, vec![g1_times(&s(10)), g1_times(&s(21)), G1Point::identity()]);
    assert_eq!(sum_points(&products), g1_times(&s(31)));
    assert_eq!(sum_points(&vec![]), G1Point::identity());
    assert_eq!(multiscalar_mul(&vec![], &vec![]), vec![]);
}

#[test]
fn composer_proves_and_proof_verifies() {
    let mut composer = TestComposer {
        circuit: multiplication_circuit(6, 7, 42),
        pub_inputs: vec![s(0), s(42)],
        compiled: None,
    };
    let key = prover_key();
    let domain = EvaluationDomain::new(composer.circuit_size()).unwrap();
    let mut transcript = TestTranscript::new(b"plonk");
    let public = composer.preprocess(&key, &mut transcript, &domain);
    let proof = composer.prove(&key, &public, &mut transcript);

    let mut transcript = TestTranscript::new(b"plonk");
    assert_eq!(
        proof.verify(&public, &mut transcript, &verifier_key(), &vec![s(0), s(42)]),
        Ok(true)
    );
    let mut transcript = TestTranscript::new(b"plonk");
    assert_eq!(
        proof.verify(&public, &mut transcript, &verifier_key(), &vec![s(0), s(41)]),
        Ok(false)
    );
}

#[test]
fn commitment_is_the_value_at_the_secret() {
    let p = Polynomial::from_coefficients_vec(vec![s(3), s(0), s(5), s(7)]);
    assert_eq!(commit(&p), Commitment(g1_times(&p.evaluate(&secret()))));
    assert_eq!(commit(&Polynomial::zero()), Commitment::empty());
}
