//! The command-line surface, as bare data: which operation was asked for
//! and with which paths. The binary shell parses arguments into its own
//! mirror of these types and converts; everything behind this boundary
//! works on plain strings.

use vstd::prelude::*;

verus! {

/// One invocation's parsed command line.
pub struct Cli {
    pub command: Commands,
}

/// The four user-facing operations.
pub enum Commands {
    /// Render a configuration from a template.
    Render { template: String, output: String },
    /// Fetch the template (and optionally an environment example) from a
    /// remote source and write it atomically.
    Update {
        template_url: String,
        template_path: String,
        env_url: Option<String>,
        env_path: Option<String>,
    },
    /// Run the managed process under supervision, optionally rendering
    /// first.
    Run { config: String, template: Option<String>, working_dir: Option<String> },
    /// Stop the supervised process gracefully.
    Stop,
}

} // verus!
