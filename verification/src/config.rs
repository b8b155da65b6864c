//! The launcher's whole configuration: where the server program lives and
//! the model library.

use vstd::prelude::*;
use crate::models::ModelConfig;

verus! {

/// The whole configuration.
#[derive(Debug)]
pub struct Config {
    /// Path to the server program (absolute, or relative to the launcher's
    /// own directory).
    pub llama_server_path: String,
    /// The model library.
    pub models: Vec<ModelConfig>,
}

/// The server path of a fresh configuration.
pub open spec fn default_server_path() -> Seq<char> {
    seq!['.', '/', 'l', 'l', 'a', 'm', 'a', '-', 's', 'e', 'r', 'v', 'e', 'r', '.', 'e', 'x', 'e']
}

impl Default for Config {
    /// A fresh configuration: the server next to the launcher, no models.
    fn default() -> (config: Self)
        ensures
            config.llama_server_path@ == default_server_path(),
            config.models@.len() == 0,
    {
        let path = String::from_str("./llama-server.exe");
        proof {
            reveal_strlit("./llama-server.exe");
        }
        assert(path@ =~= default_server_path());
        Config { llama_server_path: path, models: Vec::new() }
    }
}

impl Clone for Config {
    fn clone(&self) -> (copy: Self)
        ensures
            copy.llama_server_path == self.llama_server_path,
            copy.models@ == self.models@,
    {
        let models = self.models.clone();
        assert(models@ =~= self.models@);
        Config { llama_server_path: self.llama_server_path.clone(), models }
    }
}

} // verus!
