//! Which environment's configuration file is read.
use vstd::prelude::*;
use vstd::string::StringExecFns;

verus! {

/// What `str::to_lowercase` returns for `s`.
pub uninterp spec fn lowercase_of(s: Seq<char>) -> Seq<char>;

/// Relies on `str::to_lowercase`: the result depends on the characters alone.
#[verifier::external_body]
fn to_lowercase(s: &str) -> (r: String)
    ensures
        r@ == lowercase_of(s@),
{
    s.to_lowercase()
}

/// Environment configuration specifying what config file should be used.
#[derive(Debug, Copy, Clone, PartialEq, Eq, Structural)]
pub enum Environment {
    Dev,
    Prod,
}

/// The message that rejects an environment name.
pub open spec fn invalid_environment_message(name: Seq<char>) -> Seq<char> {
    name + " is not a valid environment configuration. valid values are 'prod' and 'dev'\n"@
}

/// The environment that an already lowercased name selects.
pub open spec fn environment_of(lower: Seq<char>) -> Result<Environment, Seq<char>> {
    if lower == "dev"@ {
        Ok(Environment::Dev)
    } else if lower == "prod"@ {
        Ok(Environment::Prod)
    } else {
        Err(invalid_environment_message(lower))
    }
}

impl Environment {
    /// Return a string representation of the enum value.
    pub fn as_str(&self) -> (r: &'static str)
        ensures
            *self == Environment::Dev ==> r@ == "dev"@,
            *self == Environment::Prod ==> r@ == "prod"@,
    {
        match self {
            Environment::Dev => "dev",
            Environment::Prod => "prod",
        }
    }

    /// Select the environment named by `lower`, a name already in lower case.
    pub fn from_lowercase(lower: String) -> (r: Result<Environment, String>)
        ensures
            r matches Ok(e) ==> environment_of(lower@) == Ok::<Environment, Seq<char>>(e),
            r matches Err(m) ==> environment_of(lower@) == Err::<Environment, Seq<char>>(m@),
    {
        if lower == "dev".to_owned() {
            Ok(Environment::Dev)
        } else if lower == "prod".to_owned() {
            Ok(Environment::Prod)
        } else {
            Err(lower.concat(" is not a valid environment configuration. valid values are 'prod' and 'dev'\n"))
        }
    }

    /// Select the environment named by `name`, in any case.
    pub fn parse(name: &str) -> (r: Result<Environment, String>)
        ensures
            r matches Ok(e) ==> environment_of(lowercase_of(name@)) == Ok::<Environment, Seq<char>>(e),
            r matches Err(m) ==> environment_of(lowercase_of(name@)) == Err::<Environment, Seq<char>>(m@),
    {
        Environment::from_lowercase(to_lowercase(name))
    }
}

} // verus!
