use soroban_sdk::crypto::bls12_381::{Fr, G1Affine, G2Affine};
use soroban_sdk::testutils::Address as _;
use soroban_sdk::xdr::ToXdr;
use soroban_sdk::{BytesN, Env, U256};

use soromint::address::Address;
use soromint::zk::contract::encode_signals;
use soromint::zk::types::{Groth16Proof, VerifyingKey};

const G1_GENERATOR: [u8; 96] = [
    0x17, 0xf1, 0xd3, 0xa7, 0x31, 0x97, 0xd7, 0x94, 0x26, 0x95, 0x63, 0x8c, 0x4f, 0xa9, 0xac, 0x0f,
    0xc3, 0x68, 0x8c, 0x4f, 0x97, 0x74, 0xb9, 0x05, 0xa1, 0x4e, 0x3a, 0x3f, 0x17, 0x1b, 0xac, 0x58,
    0x6c, 0x55, 0xe8, 0x3f, 0xf9, 0x7a, 0x1a, 0xef, 0xfb, 0x3a, 0xf0, 0x0a, 0xdb, 0x22, 0xc6, 0xbb,
    0x08, 0xb3, 0xf4, 0x81, 0xe3, 0xaa, 0xa0, 0xf1, 0xa0, 0x9e, 0x30, 0xed, 0x74, 0x1d, 0x8a, 0xe4,
    0xfc, 0xf5, 0xe0, 0x95, 0xd5, 0xd0, 0x0a, 0xf6, 0x00, 0xdb, 0x18, 0xcb, 0x2c, 0x04, 0xb3, 0xed,
    0xd0, 0x3c, 0xc7, 0x44, 0xa2, 0x88, 0x8a, 0xe4, 0x0c, 0xaa, 0x23, 0x29, 0x46, 0xc5, 0xe7, 0xe1,
];

const G2_GENERATOR: [u8; 192] = [
    0x13, 0xe0, 0x2b, 0x60, 0x52, 0x71, 0x9f, 0x60, 0x7d, 0xac, 0xd3, 0xa0, 0x88, 0x27, 0x4f, 0x65,
    0x59, 0x6b, 0xd0, 0xd0, 0x99, 0x20, 0xb6, 0x1a, 0xb5, 0xda, 0x61, 0xbb, 0xdc, 0x7f, 0x50, 0x49,
    0x33, 0x4c, 0xf1, 0x12, 0x13, 0x94, 0x5d, 0x57, 0xe5, 0xac, 0x7d, 0x05, 0x5d, 0x04, 0x2b, 0x7e,
    0x02, 0x4a, 0xa2, 0xb2, 0xf0, 0x8f, 0x0a, 0x91, 0x26, 0x08, 0x05, 0x27, 0x2d, 0xc5, 0x10, 0x51,
    0xc6, 0xe4, 0x7a, 0xd4, 0xfa, 0x40, 0x3b, 0x02, 0xb4, 0x51, 0x0b, 0x64, 0x7a, 0xe3, 0xd1, 0x77,
    0x0b, 0xac, 0x03, 0x26, 0xa8, 0x05, 0xbb, 0xef, 0xd4, 0x80, 0x56, 0xc8, 0xc1, 0x21, 0xbd, 0xb8,
    0x06, 0x06, 0xc4, 0xa0, 0x2e, 0xa7, 0x34, 0xcc, 0x32, 0xac, 0xd2, 0xb0, 0x2b, 0xc2, 0x8b, 0x99,
    0xcb, 0x3e, 0x28, 0x7e, 0x85, 0xa7, 0x63, 0xaf, 0x26, 0x74, 0x92, 0xab, 0x57, 0x2e, 0x99, 0xab,
    0x3f, 0x37, 0x0d, 0x27, 0x5c, 0xec, 0x1d, 0xa1, 0xaa, 0xa9, 0x07, 0x5f, 0xf0, 0x5f, 0x79, 0xbe,
    0x0c, 0xe5, 0xd5, 0x27, 0x72, 0x7d, 0x6e, 0x11, 0x8c, 0xc9, 0xcd, 0xc6, 0xda, 0x2e, 0x35, 0x1a,
    0xad, 0xfd, 0x9b, 0xaa, 0x8c, 0xbd, 0xd3, 0xa7, 0x6d, 0x42, 0x9a, 0x69, 0x51, 0x60, 0xd1, 0x2c,
    0x92, 0x3a, 0xc9, 0xcc, 0x3b, 0xac, 0xa2, 0x89, 0xe1, 0x93, 0x54, 0x86, 0x08, 0xb8, 0x28, 0x01,
];

fn test_env() -> Env {
    let env = Env::default();
    env.cost_estimate().budget().reset_unlimited();
    env
}

fn new_address(env: &Env) -> Address {
    let a = soroban_sdk::Address::generate(env);
    let bytes = a.to_xdr(env);
    let mut out = Vec::new();
    for b in bytes.iter() {
        out.push(b);
    }
    Address::from_xdr(out)
}

fn fr(env: &Env, v: u32) -> Fr {
    Fr::from_u256(U256::from_u32(env, v))
}

fn g1_mul_gen(env: &Env, s: &Fr) -> [u8; 96] {
    env.crypto().bls12_381().g1_mul(&G1Affine::from_array(env, &G1_GENERATOR), s).to_array()
}

fn g2_mul_gen(env: &Env, s: &Fr) -> [u8; 192] {
    env.crypto().bls12_381().g2_mul(&G2Affine::from_array(env, &G2_GENERATOR), s).to_array()
}

struct Trapdoor {
    alpha: Fr,
    beta: Fr,
    gamma: Fr,
    delta: Fr,
    ic: Vec<Fr>,
}

fn synth_vk(env: &Env, num_inputs: u32, seed: u32) -> (VerifyingKey, Trapdoor) {
    let alpha = fr(env, 7 + seed);
    let beta = fr(env, 11 + seed);
    let gamma = fr(env, 13 + seed);
    let delta = fr(env, 17 + seed);
    let mut ic_logs = Vec::new();
    let mut ic = Vec::new();
    for j in 0..=num_inputs {
        let log = fr(env, 101 + seed * 31 + j * 3);
        ic.push(g1_mul_gen(env, &log));
        ic_logs.push(log);
    }
    let vk = VerifyingKey {
        alpha_g1: g1_mul_gen(env, &alpha),
        beta_g2: g2_mul_gen(env, &beta),
        gamma_g2: g2_mul_gen(env, &gamma),
        delta_g2: g2_mul_gen(env, &delta),
        ic,
    };
    (vk, Trapdoor { alpha, beta, gamma, delta, ic: ic_logs })
}

fn synth_proof(env: &Env, td: &Trapdoor, inputs: &Vec<[u8; 32]>, c_log: u32) -> Groth16Proof {
    let bls = env.crypto().bls12_381();
    let mut l = td.ic[0].clone();
    for (j, x) in inputs.iter().enumerate() {
        let x = Fr::from_bytes(BytesN::from_array(env, x));
        let term = bls.fr_mul(&td.ic[j + 1], &x);
        l = bls.fr_add(&l, &term);
    }
    let z = fr(env, c_log);
    let xy = bls.fr_mul(&td.alpha, &td.beta);
    let lc = bls.fr_mul(&l, &td.gamma);
    let zd = bls.fr_mul(&z, &td.delta);
    let b = bls.fr_add(&bls.fr_add(&xy, &lc), &zd);
    Groth16Proof { a: g1_mul_gen(env, &fr(env, 1)), b: g2_mul_gen(env, &b), c: g1_mul_gen(env, &z) }
}

fn digest32(seed: u8) -> [u8; 32] {
    let mut arr = [0u8; 32];
    arr[31] = seed;
    arr[30] = seed.wrapping_mul(7);
    arr[17] = seed.wrapping_add(0x5a);
    arr
}

use soromint::gateway::errors::Error as GatewayError;
use soromint::gateway::gateway::{compute_commitment, ZkMintGateway};
use soromint::gateway::types::TokenParams;
use soromint::zk::contract::compute_issuer_hash;
use soromint::zk::state::ZkMetadataVerifier;
use soromint::zk::types::{MetadataSignals, PolicyParams};

const START_LEDGER: u32 = 100_000;
const VALIDITY: u32 = 17_280;

struct Rig {
    env: Env,
    verifier: ZkMetadataVerifier,
    gateway: ZkMintGateway,
    gateway_address: Address,
    admin: Address,
    issuer: Address,
    trapdoor: Trapdoor,
}

fn setup() -> Rig {
    let env = test_env();
    let admin = new_address(&env);
    let issuer = new_address(&env);
    let verifier_address = new_address(&env);
    let gateway_address = new_address(&env);
    let mut verifier = ZkMetadataVerifier::new();
    verifier.initialize(admin.duplicate()).unwrap();
    let (vk, trapdoor) = synth_vk(&env, 8, 0);
    verifier
        .register_circuit(&env, &admin, b"meta_v1".to_vec(), vk, 8, b"test-fixture".to_vec(), START_LEDGER)
        .unwrap();
    let params = PolicyParams {
        version: 1,
        policy_root: digest32(0x11),
        model_commitment: digest32(0x22),
        max_risk_score: 250,
        risk_scale: 1000,
        max_validity_ledgers: VALIDITY,
        circuit_id: b"meta_v1".to_vec(),
        rulebook_uri: b"ipfs://policy".to_vec(),
    };
    verifier.publish_policy(&admin, params).unwrap();
    verifier.activate_policy(&admin, 1, START_LEDGER).unwrap();
    let mut gateway = ZkMintGateway::new();
    gateway.initialize(admin.duplicate(), verifier_address).unwrap();
    verifier.register_consumer(&admin, &gateway_address).unwrap();
    Rig { env, verifier, gateway, gateway_address, admin, issuer, trapdoor }
}

impl Rig {
    fn params(&self, name: &str, symbol: &str) -> TokenParams {
        TokenParams {
            name: name.as_bytes().to_vec(),
            symbol: symbol.as_bytes().to_vec(),
            decimals: 7,
            supply_cap: 1_000_000,
            metadata_uri: b"ipfs://token".to_vec(),
        }
    }

    fn attest(&mut self, params: &TokenParams, nonce: u8) -> [u8; 32] {
        let commitment = compute_commitment(&self.env, &self.issuer, params);
        let signals = MetadataSignals {
            verdict: 1,
            risk_score: 42,
            policy_root: digest32(0x11),
            model_commitment: digest32(0x22),
            metadata_commitment: commitment,
            issuer_hash: compute_issuer_hash(&self.env, &self.issuer),
            nullifier: digest32(0x80 | nonce),
            expiry_ledger: START_LEDGER + VALIDITY / 2,
        };
        let inputs = encode_signals(&signals);
        let proof = synth_proof(&self.env, &self.trapdoor, &inputs, 31337);
        let env = self.env.clone();
        let issuer = self.issuer.duplicate();
        self.verifier.verify_metadata(&env, &issuer, &proof, &signals, START_LEDGER).unwrap();
        commitment
    }

    /// The whole creation: the gateway's admission, the verifier's
    /// consumption, then the record.
    fn create(&mut self, issuer: &Address, params: TokenParams, commitment: [u8; 32]) -> Result<(), GatewayError> {
        let env = self.env.clone();
        let gw = self.gateway_address.duplicate();
        let pending = self.gateway.create_token(&env, &gw, issuer, &params, &commitment, START_LEDGER)?;
        assert!(pending.consumer.same(&gw));
        assert!(pending.issuer.same(issuer));
        assert_eq!(pending.metadata_commitment, commitment);
        let att = self
            .verifier
            .consume_attestation(&pending.consumer, &pending.metadata_commitment, &pending.issuer, START_LEDGER)
            .expect("the verifier consumes the attestation");
        let record = self.gateway.record_token(&pending, params, att.policy_version, att.risk_score);
        assert_eq!(record.created_at, START_LEDGER);
        Ok(())
    }
}

#[test]
fn swapped_parameters_are_caught_by_the_commitment() {
    let mut r = setup();
    let clean = r.params("Clean Token", "CLEAN");
    let commitment = r.attest(&clean, 3);
    let nasty = r.params("Rug Pull", "SCAM");
    let env = r.env.clone();
    let issuer = r.issuer.duplicate();
    let err = r.gateway.create_token(&env, &r.gateway_address.duplicate(), &issuer, &nasty, &commitment, START_LEDGER).err().unwrap();
    assert_eq!(err, GatewayError::CommitmentMismatch);
}

#[test]
fn full_flow_creates_a_token() {
    let mut r = setup();
    let params = r.params("Good Token", "GOOD");
    let commitment = r.attest(&params, 1);
    let issuer = r.issuer.duplicate();
    r.create(&issuer, params, commitment).unwrap();
    let record = r.gateway.get_token(&commitment).unwrap();
    assert!(record.issuer.same(&issuer));
    assert_eq!(record.risk_score, 42);
    assert_eq!(record.policy_version, 1);
    assert_eq!(record.minted, 0);
    assert!(!record.frozen);
    assert_eq!(r.gateway.list_tokens(), &vec![commitment]);
    assert!(r.verifier.attestation_status(&commitment, START_LEDGER).consumed);
}

#[test]
fn creating_twice_is_rejected() {
    let mut r = setup();
    let params = r.params("Once", "ONCE");
    let commitment = r.attest(&params, 2);
    let issuer = r.issuer.duplicate();
    r.create(&issuer, params, commitment).unwrap();
    let again = r.params("Once", "ONCE");
    let env = r.env.clone();
    assert_eq!(r.gateway.create_token(&env, &r.gateway_address.duplicate(), &issuer, &again, &commitment, START_LEDGER).err(), Some(GatewayError::TokenAlreadyCreated));
}

#[test]
fn another_issuer_cannot_use_the_commitment() {
    let mut r = setup();
    let params = r.params("Mine", "MINE");
    let commitment = r.attest(&params, 4);
    let mallory = new_address(&r.env);
    let env = r.env.clone();
    assert_eq!(r.gateway.create_token(&env, &r.gateway_address.duplicate(), &mallory, &params, &commitment, START_LEDGER).err(), Some(GatewayError::CommitmentMismatch));
}

#[test]
fn minting_respects_the_committed_supply_cap() {
    let mut r = setup();
    let params = r.params("Capped", "CAP");
    let commitment = r.attest(&params, 5);
    let issuer = r.issuer.duplicate();
    r.create(&issuer, params, commitment).unwrap();
    assert_eq!(r.gateway.mint(&issuer, &commitment, 600_000), Ok(600_000));
    assert_eq!(r.gateway.mint(&issuer, &commitment, 400_001), Err(GatewayError::SupplyCapExceeded));
    assert_eq!(r.gateway.mint(&issuer, &commitment, 400_000), Ok(1_000_000));
    assert_eq!(r.gateway.mint(&issuer, &commitment, 1), Err(GatewayError::SupplyCapExceeded));
    assert_eq!(r.gateway.mint(&issuer, &commitment, 0), Err(GatewayError::InvalidAmount));
    let other = new_address(&r.env);
    assert_eq!(r.gateway.mint(&other, &commitment, 1), Err(GatewayError::NotTokenIssuer));
    assert_eq!(r.gateway.mint(&issuer, &digest32(0x01), 1), Err(GatewayError::TokenNotFound));
}

#[test]
fn frozen_tokens_cannot_be_minted() {
    let mut r = setup();
    let params = r.params("Frosty", "ICE");
    let commitment = r.attest(&params, 6);
    let issuer = r.issuer.duplicate();
    let admin = r.admin.duplicate();
    r.create(&issuer, params, commitment).unwrap();
    assert_eq!(r.gateway.set_token_frozen(&issuer, &commitment, true), Err(GatewayError::Unauthorized));
    r.gateway.set_token_frozen(&admin, &commitment, true).unwrap();
    assert_eq!(r.gateway.mint(&issuer, &commitment, 1), Err(GatewayError::TokenFrozen));
    r.gateway.set_token_frozen(&admin, &commitment, false).unwrap();
    assert_eq!(r.gateway.mint(&issuer, &commitment, 1), Ok(1));
}

#[test]
fn invalid_params_are_rejected() {
    let mut r = setup();
    let env = r.env.clone();
    let issuer = r.issuer.duplicate();
    let mut p = r.params("", "X");
    let c = compute_commitment(&env, &issuer, &p);
    assert_eq!(r.gateway.create_token(&env, &r.gateway_address.duplicate(), &issuer, &p, &c, START_LEDGER).err(), Some(GatewayError::InvalidTokenParams));
    p = r.params("Name", "X");
    p.decimals = 19;
    assert_eq!(r.gateway.create_token(&env, &r.gateway_address.duplicate(), &issuer, &p, &c, START_LEDGER).err(), Some(GatewayError::InvalidTokenParams));
    p.decimals = 7;
    p.supply_cap = 0;
    assert_eq!(r.gateway.create_token(&env, &r.gateway_address.duplicate(), &issuer, &p, &c, START_LEDGER).err(), Some(GatewayError::InvalidTokenParams));
}

#[test]
fn quota_limits_creations_per_window() {
    let mut r = setup();
    let env = r.env.clone();
    let issuer = r.issuer.duplicate();
    for i in 0..5u8 {
        let name = format!("Token {}", i);
        let p = r.params(&name, "T");
        let c = compute_commitment(&env, &issuer, &p);
        r.gateway.create_token(&env, &r.gateway_address.duplicate(), &issuer, &p, &c, START_LEDGER).unwrap();
    }
    assert_eq!(r.gateway.get_quota(&issuer).unwrap().used, 5);
    let p = r.params("Token 9", "T");
    let c = compute_commitment(&env, &issuer, &p);
    assert_eq!(r.gateway.create_token(&env, &r.gateway_address.duplicate(), &issuer, &p, &c, START_LEDGER).err(), Some(GatewayError::QuotaExceeded));
    r.gateway.create_token(&env, &r.gateway_address.duplicate(), &issuer, &p, &c, START_LEDGER + 17_280).unwrap();
    assert_eq!(r.gateway.get_quota(&issuer).unwrap().used, 1);
}

#[test]
fn commitment_depends_on_every_parameter() {
    let r = setup();
    let a = r.params("Name", "SYM");
    let base = compute_commitment(&r.env, &r.issuer, &a);
    assert_eq!(base[0], 0);
    let mut b = r.params("Name", "SYM");
    b.decimals = 8;
    assert_ne!(compute_commitment(&r.env, &r.issuer, &b), base);
    let mut c = r.params("Name", "SYM");
    c.supply_cap = 2;
    assert_ne!(compute_commitment(&r.env, &r.issuer, &c), base);
    let mut d = r.params("Name", "SYM");
    d.metadata_uri = b"ipfs://other".to_vec();
    assert_ne!(compute_commitment(&r.env, &r.issuer, &d), base);
    assert_ne!(compute_commitment(&r.env, &r.issuer, &r.params("Nam", "SYM")), base);
}

#[test]
fn gateway_admin_rules() {
    let mut r = setup();
    let admin = r.admin.duplicate();
    let issuer = r.issuer.duplicate();
    assert_eq!(r.gateway.unpause(&admin), Err(GatewayError::NotPaused));
    assert_eq!(r.gateway.pause(&issuer), Err(GatewayError::Unauthorized));
    r.gateway.pause(&admin).unwrap();
    assert!(r.gateway.is_paused());
    assert_eq!(r.gateway.mint(&issuer, &digest32(1), 1), Err(GatewayError::Paused));
    r.gateway.unpause(&admin).unwrap();
    let v = new_address(&r.env);
    assert_eq!(
        r.gateway.initialize(admin.duplicate(), v),
        Err(GatewayError::AlreadyInitialized)
    );
    let v = new_address(&r.env);
    let cfg = soromint::gateway::types::GatewayConfig { verifier: v, tokens_per_window: 1, window_ledgers: 0 };
    assert_eq!(r.gateway.set_config(&admin, cfg), Err(GatewayError::InvalidTokenParams));
    assert!(r.gateway.get_admin().unwrap().same(&admin));
}

// --- the gateway's own scenarios, one rule per test -------------------------------------

impl Rig {
    /// A creation at ledger `now` whose verifier step may refuse.
    fn try_create_at(&mut self, params: TokenParams, commitment: [u8; 32], now: u32) -> Result<(), String> {
        let env = self.env.clone();
        let gw = self.gateway_address.duplicate();
        let issuer = self.issuer.duplicate();
        let pending = self
            .gateway
            .create_token(&env, &gw, &issuer, &params, &commitment, now)
            .map_err(|e| format!("{:?}", e))?;
        let att = self
            .verifier
            .consume_attestation(&pending.consumer, &pending.metadata_commitment, &pending.issuer, now)
            .map_err(|e| format!("{:?}", e))?;
        self.gateway.record_token(&pending, params, att.policy_version, att.risk_score);
        Ok(())
    }

    fn gateway_config(&self) -> soromint::gateway::types::GatewayConfig {
        let c = self.gateway.get_config().unwrap();
        soromint::gateway::types::GatewayConfig {
            verifier: c.verifier.duplicate(),
            tokens_per_window: c.tokens_per_window,
            window_ledgers: c.window_ledgers,
        }
    }
}

#[test]
fn creation_consumes_the_attestation() {
    let mut r = setup();
    let params = r.params("Once", "ONCE");
    let commitment = r.attest(&params, 2);
    r.try_create_at(params, commitment, START_LEDGER).unwrap();
    assert!(r.verifier.attestation_status(&commitment, START_LEDGER).consumed);
    let again = r.params("Once", "ONCE");
    assert!(r.try_create_at(again, commitment, START_LEDGER).is_err());
}

#[test]
fn creation_without_an_attestation_fails() {
    let mut r = setup();
    let params = r.params("Unproven", "NOPE");
    let commitment = compute_commitment(&r.env, &r.issuer, &params);
    assert!(r.try_create_at(params, commitment, START_LEDGER).is_err());
    assert!(r.gateway.get_token(&commitment).is_err());
}

#[test]
fn only_the_issuer_can_mint() {
    let mut r = setup();
    let params = r.params("Owned", "OWN");
    let commitment = r.attest(&params, 6);
    r.try_create_at(params, commitment, START_LEDGER).unwrap();
    let stranger = new_address(&r.env);
    assert_eq!(r.gateway.mint(&stranger, &commitment, 1), Err(GatewayError::NotTokenIssuer));
}

#[test]
fn zero_and_negative_mints_are_rejected() {
    let mut r = setup();
    let params = r.params("Zero", "ZRO");
    let commitment = r.attest(&params, 7);
    r.try_create_at(params, commitment, START_LEDGER).unwrap();
    let issuer = r.issuer.duplicate();
    for amount in [0i128, -1i128] {
        assert_eq!(r.gateway.mint(&issuer, &commitment, amount), Err(GatewayError::InvalidAmount));
    }
}

#[test]
fn frozen_token_cannot_mint() {
    let mut r = setup();
    let params = r.params("Frozen", "FRZ");
    let commitment = r.attest(&params, 8);
    r.try_create_at(params, commitment, START_LEDGER).unwrap();
    let (issuer, admin) = (r.issuer.duplicate(), r.admin.duplicate());
    r.gateway.set_token_frozen(&admin, &commitment, true).unwrap();
    assert_eq!(r.gateway.mint(&issuer, &commitment, 1), Err(GatewayError::TokenFrozen));
    r.gateway.set_token_frozen(&admin, &commitment, false).unwrap();
    assert_eq!(r.gateway.mint(&issuer, &commitment, 1), Ok(1));
}

#[test]
fn quota_resets_after_the_window() {
    let mut r = setup();
    let admin = r.admin.duplicate();
    let mut config = r.gateway_config();
    config.tokens_per_window = 1;
    let window = config.window_ledgers;
    r.gateway.set_config(&admin, config).unwrap();

    let mut p1 = r.params("First", "ONE");
    p1.metadata_uri = b"one".to_vec();
    let c1 = r.attest(&p1, 20);
    r.try_create_at(p1, c1, START_LEDGER).unwrap();

    let later = START_LEDGER + window + 1;
    let mut p2 = r.params("Second", "TWO");
    p2.metadata_uri = b"two".to_vec();
    let env = r.env.clone();
    let issuer = r.issuer.duplicate();
    let commitment = compute_commitment(&env, &issuer, &p2);
    let signals = MetadataSignals {
        verdict: 1,
        risk_score: 42,
        policy_root: digest32(0x11),
        model_commitment: digest32(0x22),
        metadata_commitment: commitment,
        issuer_hash: compute_issuer_hash(&env, &issuer),
        nullifier: digest32(0xAB),
        expiry_ledger: START_LEDGER + window + 100,
    };
    let inputs = encode_signals(&signals);
    let proof = synth_proof(&env, &r.trapdoor, &inputs, 31337);
    r.verifier.verify_metadata(&env, &issuer, &proof, &signals, later).unwrap();
    r.try_create_at(p2, commitment, later).unwrap();
    assert_eq!(r.gateway.get_quota(&issuer).unwrap().used, 1);
}

#[test]
fn commitment_is_field_separated() {
    let r = setup();
    let mut a = r.params("ab", "c");
    a.metadata_uri = Vec::new();
    let mut b = r.params("a", "bc");
    b.metadata_uri = Vec::new();
    assert_ne!(compute_commitment(&r.env, &r.issuer, &a), compute_commitment(&r.env, &r.issuer, &b));
}

#[test]
fn pause_blocks_creation_and_minting() {
    let mut r = setup();
    let params = r.params("Pausable", "PAU");
    let commitment = r.attest(&params, 30);
    r.try_create_at(params, commitment, START_LEDGER).unwrap();
    let (issuer, admin) = (r.issuer.duplicate(), r.admin.duplicate());
    r.gateway.pause(&admin).unwrap();
    assert_eq!(r.gateway.mint(&issuer, &commitment, 1), Err(GatewayError::Paused));
    r.gateway.unpause(&admin).unwrap();
    assert_eq!(r.gateway.mint(&issuer, &commitment, 1), Ok(1));
}

#[test]
fn non_admin_cannot_freeze_or_configure() {
    let mut r = setup();
    let stranger = new_address(&r.env);
    let params = r.params("Guarded", "GRD");
    let commitment = r.attest(&params, 31);
    r.try_create_at(params, commitment, START_LEDGER).unwrap();
    assert_eq!(r.gateway.set_token_frozen(&stranger, &commitment, true), Err(GatewayError::Unauthorized));
    let config = r.gateway_config();
    assert_eq!(r.gateway.set_config(&stranger, config), Err(GatewayError::Unauthorized));
}

#[test]
fn tokens_are_indexed() {
    let mut r = setup();
    for (n, uri) in [(40u8, "x"), (41u8, "y")] {
        let mut p = r.params("Indexed", "IDX");
        p.metadata_uri = uri.as_bytes().to_vec();
        let c = r.attest(&p, n);
        r.try_create_at(p, c, START_LEDGER).unwrap();
    }
    assert_eq!(r.gateway.list_tokens().len(), 2);
}

#[test]
fn test_double_initialize_is_rejected() {
    let mut r = setup();
    let admin = r.admin.duplicate();
    let other = new_address(&r.env);
    assert_eq!(r.gateway.initialize(admin, other), Err(GatewayError::AlreadyInitialized));
}

#[test]
fn string_encoding_in_the_commitment_is_the_xdr_of_the_string() {
    // The commitment hashes each string in its XDR form (type tag, length,
    // bytes, padding); hashing the raw bytes instead gives another digest.
    let r = setup();
    let p = r.params("Name", "SYM");
    let got = compute_commitment(&r.env, &r.issuer, &p);
    let env = r.env.clone();
    let xdr = |s: &[u8]| -> Vec<u8> {
        let mut v = vec![0, 0, 0, 14];
        v.extend_from_slice(&(s.len() as u32).to_be_bytes());
        v.extend_from_slice(s);
        while v.len() % 4 != 0 {
            v.push(0);
        }
        v
    };
    let field = |f: &[u8]| -> Vec<u8> {
        let mut v = (f.len() as u32).to_be_bytes().to_vec();
        v.extend_from_slice(f);
        v
    };
    let mut m = soromint::gateway::gateway::COMMITMENT_DST.to_vec();
    m.extend(field(&r.issuer.xdr));
    m.extend(field(&xdr(&p.name)));
    m.extend(field(&xdr(&p.symbol)));
    m.extend_from_slice(&p.decimals.to_be_bytes());
    m.extend_from_slice(&p.supply_cap.to_be_bytes());
    m.extend(field(&xdr(&p.metadata_uri)));
    let mut want: [u8; 32] = env.crypto().sha256(&soroban_sdk::Bytes::from_slice(&env, &m)).to_array();
    want[0] = 0;
    assert_eq!(got, want);
}
