//! Parsing of environment definition files (`KEY=value` lines) and
//! shell-like `$NAME` / `${NAME}` substitution inside double-quoted values.
pub mod laws;
pub mod line;
pub mod lines;
pub mod text;
pub mod var_map;

pub use lines::{expand_value, lookup, Lines, Scan};
pub use line::{KeyVal, Line, LineModel, Quote};
pub use text::{is_whitespace, split_lines, trim};
pub use var_map::VarMap;
