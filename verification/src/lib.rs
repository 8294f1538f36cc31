//! A taxonomy of warnings for a configuration-loading subsystem.
//!
//! The crate defines a closed set of warning conditions that can arise while
//! locating, reading, validating and repairing a project's TOML configuration
//! file, together with a deterministic human-readable rendering of each
//! condition and a lossless tagged text encoding for interchange with tooling.

mod codec;
mod render;
mod warning;

pub use codec::esc;
pub use codec::esc_char;
pub use codec::is_special;
pub use codec::lemma_encode_injective;
pub use codec::spec_encode;
pub use render::contains_seq;
pub use render::lemma_render_total;
pub use render::spec_render;
pub use warning::lemma_eq_reflexive;
pub use warning::lemma_eq_structural;
pub use warning::lemma_eq_symmetric;
pub use warning::lemma_eq_transitive;
pub use warning::same_fields;
pub use warning::Warning;
pub use warning::WarningView;
