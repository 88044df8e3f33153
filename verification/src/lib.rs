//! Deterministic batch asset pipeline core: stage-seeded fingerprinting of
//! source bytes, sandboxed resolution of input paths against a base
//! directory, derivation of output file names, and a three-level manifest
//! mapping logical image names to variants to format extensions to output
//! paths. The pixel-level decode/resize/encode work and all file I/O are
//! external collaborators and live outside this crate.

pub mod fingerprint;
pub mod format;
pub mod manifest;
pub mod plan;
pub mod sandbox;
