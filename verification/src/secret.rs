use vstd::prelude::*;

verus! {

/// Where a configured secret comes from. `Plain` carries the value
/// itself; the other two name an environment variable or a file, which
/// the application shell reads at startup (resolution is I/O and lives
/// there; the library only ever sees the resolved string).
#[derive(Debug)]
pub enum SecretSource {
    Plain(String),
    FromEnv { from_env: String },
    FromFile { from_file: String },
}

impl SecretSource {
    /// The value of an inline secret; the other sources need the shell.
    pub fn plain_value(&self) -> (r: Option<String>)
        ensures
            match r {
                Some(s) => self matches SecretSource::Plain(v) && s@ == v@,
                None => !(self matches SecretSource::Plain(_)),
            },
    {
        match self {
            SecretSource::Plain(v) => Some(v.clone()),
            _ => None,
        }
    }
}

} // verus!
