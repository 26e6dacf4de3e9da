//! Exposes native types to an embedded Lua runtime.
//!
//! A [`Registry`] lists constructors of type descriptors; a runtime instance
//! is built by installing every descriptor into a fresh engine instance and
//! publishing the resulting namespace table under the global name `Rust`.
//! Each thread keeps at most one instance in its [`ThreadSlot`], and every
//! live instance is recorded in a [`LiveTable`].
//!
//! The crate holds no process-wide state of its own: the registry, the
//! live-instance table and the slot of the calling thread are values that the
//! caller owns and hands in.

pub mod bind;
pub mod engine;
pub mod error;
pub mod live;
pub mod state;

pub use bind::{
    binding_of, iterate_bindings, namespace_name, namespace_table, proxy_of, short_name, Binding,
    Descriptor, LuaBindings, Registry,
};
pub use error::{engine_result, LuaBindError};
pub use live::LiveTable;
pub use state::{
    call_with, escape, find_func, get_func, get_lua, get_lua_with, require_script, Initializing,
    LuaGuard, ThreadSlot,
};
