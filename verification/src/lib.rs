//! The core of a deductive verifier for function bodies.
//!
//! A body arrives as the flat lists of a frontend ([`thir::arena`]) and is
//! reduced to a typed, desugared expression tree ([`thir::rthir`]). The
//! analyzer ([`analyze`]) walks the tree symbolically, keeps the path condition
//! and the current term of every variable in an environment, and turns each
//! assertion into a solver script. Whoever drives the library hands the
//! scripts to the solver and feeds the answers to [`analyze::oracle`].

pub mod thir;
pub mod analyze;
pub mod drive;
pub mod verify_modules;
