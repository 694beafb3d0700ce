//! Numerical front end of a quantum-chemistry code.
//!
//! The library reads a simulation input and the basis sets of elements,
//! lays out the contracted Cartesian atomic-orbital basis of a molecule, and
//! takes the decisions of the core-Hamiltonian initial guess. It reads no
//! file and asks no service itself: what is read and fetched is handed to it,
//! and it says what is to be done next. Real numbers pass through it
//! unchanged; where it has to compare them, it does so on the bits of their
//! binary64 form.

pub mod basis;
pub mod binary64;
pub mod cartesian;
pub mod cli;
pub mod collect;
pub mod document;
pub mod elements;
pub mod guess;
pub mod input;
pub mod layout;
pub mod load;
pub mod orbital;
pub mod qcschema;
pub mod text;
pub mod zmatrix;
