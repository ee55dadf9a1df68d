//! Password strength rules: a fixed set of independent checks, one of which
//! searches a list of known weak passwords for the entry closest to the
//! candidate, and an evaluator that runs them and tallies the verdicts.

pub mod similarity;
pub mod text;
pub mod wordlist;
pub mod rules;
pub mod evaluator;
