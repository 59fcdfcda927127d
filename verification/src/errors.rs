//! The driver's error taxonomy. An error carries its kind and a cause
//! chain: notes attached on the way up, oldest first.
use vstd::prelude::*;

verus! {

/// Which side of the server raised a reported error.
#[derive(Debug, Clone, Copy, PartialEq, Eq, Structural)]
pub enum ServerErrorKind {
    Runtime,
    Compile,
    Client,
    Unknown,
}

/// What went wrong.
#[derive(Debug, Clone, PartialEq)]
pub enum ErrorKind {
    /// The pool was given no endpoints to connect to.
    NoEndpoints,
    /// An endpoint name did not resolve to an address.
    AddressResolution,
    /// A cursor was advanced after it finished or its connection reset.
    ReadFromClosedCursor,
    /// A response arrived whose shape was not the expected one.
    UnexpectedResponse,
    /// No result arrived before the iteration deadline.
    IteratorTimeout,
    /// The transport failed or a response was malformed.
    Connection(String),
    /// The server reported an error for a query.
    Server { kind: ServerErrorKind, code: i32, span: Vec<u32>, message: String },
}

/// Model of a cause chain.
pub open spec fn notes_view(v: Seq<String>) -> Seq<Seq<char>>
    decreases v.len(),
{
    if v.len() == 0 {
        Seq::empty()
    } else {
        notes_view(v.drop_last()).push(v.last()@)
    }
}

/// An error of this driver.
#[derive(Debug, Clone)]
pub struct Error {
    kind: ErrorKind,
    context: Vec<String>,
}

impl Error {
    /// The kind this error carries.
    pub closed spec fn kind_v(&self) -> ErrorKind {
        self.kind
    }

    /// Its cause chain, oldest note first.
    pub closed spec fn context_v(&self) -> Seq<Seq<char>> {
        notes_view(self.context@)
    }

    pub fn kind(&self) -> (r: &ErrorKind)
        ensures
            *r == self.kind_v(),
    {
        &self.kind
    }

    /// Wrap a kind as an error with an empty cause chain.
    pub fn from_kind(kind: ErrorKind) -> (r: Error)
        ensures
            r.kind_v() == kind,
            r.context_v() == Seq::<Seq<char>>::empty(),
    {
        let r = Error { kind, context: Vec::new() };
        proof {
            assert(notes_view(r.context@) =~= Seq::<Seq<char>>::empty());
        }
        r
    }

    /// Append one note to the cause chain, keeping the kind.
    pub fn with_context(self, note: &str) -> (r: Error)
        ensures
            r.kind_v() == self.kind_v(),
            r.context_v() == self.context_v().push(note@),
    {
        let mut context = self.context;
        let ghost pre = context@;
        context.push(note.to_owned());
        proof {
            assert(context@.drop_last() =~= pre);
        }
        Error { kind: self.kind, context }
    }

    /// The cause chain, oldest note first.
    pub fn context(&self) -> (r: &Vec<String>)
        ensures
            notes_view(r@) == self.context_v(),
    {
        &self.context
    }
}

} // verus!
