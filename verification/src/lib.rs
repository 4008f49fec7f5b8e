//! Post-quantum attestation core.
//!
//! A lattice-based key-encapsulation mechanism (k = 3 parameter set over the
//! ring Z_q[X]/(X^256 + 1) with q = 3329), paired with an ML-DSA signature
//! scheme and AES-256-GCM authenticated encryption, producing a wire-format
//! attestation blob: a device signs and encrypts an integrity report so that
//! only a designated server can open it, with forgery and tampering
//! detectable.

use vstd::prelude::*;

pub mod aead;
pub mod b64;
pub mod blob;
pub mod bytes;
pub mod codec;
pub mod errors;
pub mod integrity;
pub mod kem;
pub mod lemmas;
pub mod ntt;
pub mod pqapi;
pub mod ring;
pub mod sampler;
pub mod sig;
pub mod trusted;

pub use errors::ShieldError;
pub use integrity::{IntegrityReport, IntegrityVerdict, evaluate_integrity, report_to_json};
pub use kem::{kyber_decapsulate, kyber_encapsulate, kyber_keypair};
pub use pqapi::{
    derive_aes_key, generate_pq_keypair, pq_secure_attestation_blob, pq_sign_data, pq_verify_data,
};

verus! {

/// Overall status banner for the shield core.
pub fn mercy_shield_status() -> (r: String)
    ensures
        r@ == "Green Harmony - post-quantum shield core online"@,
{
    "Green Harmony - post-quantum shield core online".to_owned()
}

/// Status banner for the rendering layer that sits on top of the core.
pub fn mercy_shield_ui_status() -> (r: String)
    ensures
        r@ == "Proprietary Rendering On The Fly Active \u{2014} Quantum Glow Pulses + Interactive Buttons Mercy Eternal \u{26a1}\u{fe0f}"@,
{
    "Proprietary Rendering On The Fly Active \u{2014} Quantum Glow Pulses + Interactive Buttons Mercy Eternal \u{26a1}\u{fe0f}".to_owned()
}

} // verus!
