//! A verified parser and serializer for `.env`-style configuration files:
//! newline-delimited `KEY=VALUE` pairs with `#` comments and single- or
//! double-quoted values. The lexer classifies each input character into a
//! token; the parser runs an explicit state machine over the token sequence
//! and produces either a key/value mapping or a positioned error.

pub mod env_map;
pub mod error;
pub mod laws;
pub mod machine;
pub mod messages;
pub mod parser;
pub mod search;
pub mod serialize;
pub mod text;
pub mod token;

pub use env_map::EnvMap;
pub use error::{EnvError, FindEnvError, SpecEnvError};
pub use parser::{parse_dot_env, process_dot_env};
pub use search::is_env_file_name;
pub use serialize::serialize_env;
pub use token::{lex_dot_env, EnvToken};
