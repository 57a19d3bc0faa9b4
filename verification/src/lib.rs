//! Syntax validation for ECMAScript regular-expression patterns and flag
//! strings, parameterised by a target language edition.
//!
//! The crate checks whether a pattern is grammatically legal — it never
//! compiles or executes a regular expression.  A [`reader::Reader`] decodes
//! the pattern into code points (UTF-16 code-unit arithmetic, with surrogate
//! pairs combined in Unicode mode), and an
//! [`validator::EcmaRegexValidator`] walks the `Pattern` grammar by
//! recursive descent, enforcing the edition-gated alternatives and the
//! semantic rules (class-range ordering, quantifier ordering, backreference
//! resolution, duplicate group names) along the way.
//!
//! Every public operation carries a contract that pins its result down to a
//! specification-level recogniser over the decoded code units.

mod grammar;
mod reader;
mod unicode;
mod validator;

pub use grammar::{EcmaVersion, RegexSyntaxError};
pub use reader::Reader;
pub use validator::EcmaRegexValidator;
