//! Turns the variables of a `.env` file into the import document of a
//! secrets manager.
//!
//! [`DotEnvFile::parse_from_str`] reads the lines of a text into records of
//! key, value and optional comment. [`ImportPayload::from_dotenv`] makes one
//! secret of each record and assigns them all to no project, to a project
//! that exists, or to a new one, as a [`ProjectAssignment`] says.
pub use dotenv::DotEnvFile;
pub use env_var::EnvVar;
pub use import_payload::{ImportPayload, Project, ProjectAssignment, Secret};

pub mod dotenv;
pub mod env_var;
pub mod ident;
pub mod import_payload;
pub mod output;
pub mod text;
