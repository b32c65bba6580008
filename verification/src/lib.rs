//! Verified gadgets for PLONKish arithmetic circuits over the Pallas base
//! field.
//!
//! A circuit is described in two steps. Its shape is declared once in a
//! [`plonk::ConstraintSystem`]: columns, selectors, gates (polynomials that
//! vanish on the rows where a selector is enabled) and lookup arguments
//! (tuples that are rows of a table). A witness is then laid out in a
//! [`circuit::Layouter`]: regions of cells, copy constraints and the cells
//! of the lookup tables. [`dev::verify`] checks a witness against its shape
//! and reports every gate, lookup and copy constraint that fails, and
//! [`floor_planner`] places the regions on rows.
//!
//! The gadgets in [`chips`] are built from these parts: three layouts of
//! the Fibonacci recurrence, and four range checks, from a single
//! polynomial up to a running sum over chunks of a value that constrains it
//! to any number of bits with one table. [`circuits`] holds a small circuit
//! around each gadget, and states what each of them accepts and rejects.
//!
//! Everything here is verified but for the arithmetic of the field itself,
//! which is done by `pasta_curves` and specified in [`field`]. That the
//! modulus of the field is prime is proved in [`certificate`].

pub mod certificate;
pub mod chips;
pub mod circuit;
pub mod circuits;
pub mod decomposition;
pub mod dev;
pub mod field;
pub mod floor_planner;
pub mod modular;
pub mod plonk;
pub mod primality;
pub mod recurrence;
