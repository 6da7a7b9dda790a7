//! Expansion of decorated functions.
//!
//! A decorator list and a function, both given as token trees, become a
//! function with the same signature whose body is a chain of decorator
//! calls, each receiving a closure over what it wraps. Every step is stated
//! as a specification and proved: the list grammar (`grammar`), the
//! self-path resolver (`path`), the function validator (`function`), the
//! composer and emitter (`compose`), and the laws of the composed code's
//! behaviour (`laws`). Whether a run of tokens is a Rust expression or a
//! function item is asked of syn (`syntax`).
use vstd::prelude::*;

pub mod token;
pub mod path;
pub mod error;
pub mod syntax;
pub mod grammar;
pub mod function;
pub mod compose;
pub mod laws;

pub use compose::{compose_body, decorate};
pub use error::{DecorateError, ErrorKind};
pub use function::{analyze_function, analyze_shape, FnShape};
pub use grammar::{parse_decorators, Config, DecoratorEntry, DecoratorRef};
pub use path::{resolve_self_path, PathError, SelfPath};
pub use token::{Delim, Token};

verus! {

/// Doubles a non-negative number. The bundled program runs it under a
/// decorator that reports a panic; a negative input is the caller's to refuse.
pub fn calculate_value(x: i32) -> (r: i32)
    requires
        0 <= x <= i32::MAX / 2,
    ensures
        r == 2 * x,
{
    x * 2
}

} // verus!
