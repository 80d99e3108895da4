//! Accessor derivation for enums whose variants carry named fields.
//!
//! For every field name that occurs in some variant the library derives a
//! mutable accessor `<field>_mut`, and for every field name that every variant
//! carries it also derives a swap setter `set_<field>`. The derivation is a
//! function from a declaration to a list of methods and on to their text; each
//! step is stated as a function on plain mathematical values and proved.

pub mod collect;
pub mod declaration;
pub mod derive;
pub mod emit;
pub mod laws;
pub mod sequences;
pub mod synth;
