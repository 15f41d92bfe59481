//! Resolution of target execution environments (browsers and JavaScript
//! runtimes) into a normalized per-engine version-floor map, and feature
//! gating decisions over that map.
//!
//! Raw `(name, version)` pairs from a usage-data feed merge leniently:
//! unknown names and unparsable versions drop silently, and colliding
//! entries keep the lowest version. The strict paths — single-name engine
//! parsing, structured config conversion, query resolution — surface their
//! failures as typed errors instead.

pub mod engine;
pub mod errors;
pub mod features;
pub mod laws;
pub mod targets;
pub mod test_file;
pub mod text;
pub mod version;
