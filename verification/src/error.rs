use vstd::prelude::*;

verus! {

/// The kinds of failure a replication task can surface.
#[derive(Clone, Copy, Debug, PartialEq, Eq, Structural, Hash)]
pub enum Error {
    /// The task configuration is unusable.
    Config,
    /// A connection was lost or could not be used.
    Connection,
    /// A table or a column is unknown.
    Schema,
    /// A value could not be decoded into its typed form.
    Decode,
    /// A query could not be built or executed.
    Query,
    /// Source and destination disagree in a way that cannot be compared.
    Consistency,
    /// Shutdown was raised while work was still pending.
    Shutdown,
}

impl Error {
    /// A short lower-case name of the kind.
    pub fn name(&self) -> (r: &'static str)
        ensures
            r@ == self.name_spec(),
    {
        match self {
            Error::Config => "config",
            Error::Connection => "connection",
            Error::Schema => "schema",
            Error::Decode => "decode",
            Error::Query => "query",
            Error::Consistency => "consistency",
            Error::Shutdown => "shutdown",
        }
    }

    pub open spec fn name_spec(&self) -> Seq<char> {
        match self {
            Error::Config => "config"@,
            Error::Connection => "connection"@,
            Error::Schema => "schema"@,
            Error::Decode => "decode"@,
            Error::Query => "query"@,
            Error::Consistency => "consistency"@,
            Error::Shutdown => "shutdown"@,
        }
    }
}

} // verus!
