//! Host-embedding boundary for a sandboxed bytecode virtual machine.
//!
//! The library covers the embedding surface around an externally supplied
//! execution engine: marshalling of tagged values, grouping of host-supplied
//! import bindings into namespaces, assembly of the bytecode-instrumentation
//! middleware chain, the lifecycle of instance handles handed across the
//! boundary, enumeration of an instance's exports, dispatch of calls to
//! exported functions, and the per-scope error channel that stands in for
//! exceptions at the boundary.
//!
//! The engine itself (module validation, compilation, execution) is an
//! external collaborator: its verdicts enter the library as plain values,
//! and every decision taken on them here is verified.
#![allow(non_camel_case_types)]

pub mod error;
pub mod imports;
pub mod instance;
pub mod middleware;
pub mod text;
pub mod value;
