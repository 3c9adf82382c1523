//! Planning logic of the engine's derive and attribute macros. The syntax the
//! macros read is modelled by the plain values of [`syntax`]; each planner
//! decides what the generated code contains, and rendering that decision as
//! tokens is left to the code that owns the token types.
pub mod syntax;
pub mod reflect;
pub mod label;
pub mod get_ike;
pub mod type_uuid;
pub mod node;
pub mod system_param;
pub mod component;
