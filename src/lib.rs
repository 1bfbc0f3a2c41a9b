//! Spectral fusion and semantic-engine orchestration over plain, verified
//! data: the entanglement table between semantic domains, the planning and
//! shape rules of the wavelet bases, the generic spectral fusion engine, the
//! coherence pulse and the ordered step of the semantic engine.
//!
//! Sample values, scores, beliefs and resonances are type parameters: the
//! library decides which samples are read, in which order, with which
//! shapes and on which errors, and the arithmetic on the samples is supplied
//! through [`spectral::BasisTransform`], [`spectral::WaveletFusionStrategy`],
//! [`belief::BeliefState`], [`field::ResonanceField`] and
//! [`field::LawSynthEngine`].

pub mod basis;
pub mod belief;
pub mod coherence;
pub mod engine;
pub mod entangle;
pub mod field;
pub mod haar;
pub mod spectral;
