//! A bridge that lets script code call methods on native objects: a registry
//! of methods per native type, a table of foreign objects whose borrowed
//! entries are invalidated when their scope closes, the script-global
//! namespace, and the per-call invocation cycle.
pub mod value;
pub mod registry;
pub mod objects;
pub mod script;
pub mod invoke;
pub mod laws;
pub mod surface;
