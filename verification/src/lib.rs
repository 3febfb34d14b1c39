//! A host/guest interop layer for a sandboxed plugin module.
//!
//! A guest module exposes a handful of named entry points (a value
//! constructor, a value operation, an allocator and a deallocator) together
//! with a linear byte memory. The host instantiates the module, resolves the
//! entry points by name against a declared signature, drives calls into them
//! with plain scalar arguments, and reads raw bytes back out of the guest
//! memory at offsets handed out by the guest's own allocator.
//!
//! The crate models the instantiated module explicitly: the linear memory is
//! a byte vector, the allocator is an object owned by the instance, and every
//! operation is specified against a mathematical model of the instance state.

pub mod errors;
pub mod heap;
pub mod host;
pub mod instance;
pub mod memory;
pub mod model;
pub mod value;
