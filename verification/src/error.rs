//! Generic error types used throughout the crate.
//!
//! Many operations here consume ownership of an OS resource (chiefly a file
//! descriptor) and may fail. [`ConversionError`] is the error container they
//! all share: it hands the original resource back to the caller on failure,
//! so that no ownership is ever silently lost.

use vstd::prelude::*;

verus! {

/// Declares `std::io::Error` to the verifier as an opaque value type, so that
/// it can be carried through [`ConversionError`] and handed back to callers.
#[verifier::external_type_specification]
#[verifier::external_body]
pub struct ExIoError(std::io::Error);

/// Human-readable description for the `details` field of a
/// [`ConversionError`].
///
/// The standard formatting traits cannot be verified, so detail enumerations
/// instead implement this trait: `message` returns the descriptive text and is
/// pinned to the spec-level `message_spec` so that callers can reason about
/// what the composed error text contains.
pub trait ErrorDetails {
    /// The text `message` returns, as a mathematical sequence of characters.
    spec fn message_spec(&self) -> Seq<char>;

    /// Returns the human-readable description of the detail value.
    fn message(&self) -> (r: String)
        ensures
            r@ == self.message_spec(),
    ;
}

/// General error type for fallible conversions that consume ownership.
///
/// A conversion that takes ownership of a resource `S` and fails returns this
/// container so that the caller regains the resource unchanged and may retry,
/// inspect the OS `cause`, branch on the `details` enumeration, or discard it.
///
/// The `source` field is an `Option` only so that [`try_map_source`] can model
/// a further conversion step that consumes the resource destructively; every
/// constructor of this type stores the resource it was given.
///
/// [`try_map_source`]: ConversionError::try_map_source
pub struct ConversionError<S, E = NoDetails> {
    /// Extra information about the error.
    pub details: E,
    /// The underlying OS error, if any.
    pub cause: Option<std::io::Error>,
    /// Ownership of the input of the conversion.
    pub source: Option<S>,
}

impl<S, E: Default> ConversionError<S, E> {
    /// Constructs an error value from a given OS cause, filling the `details`
    /// field with its default value.
    pub fn from_source_and_cause(source: S, cause: std::io::Error) -> (r: Self)
        ensures
            r.source == Some(source),
            r.cause == Some(cause),
            call_ensures(E::default, (), r.details),
    {
        ConversionError { details: Default::default(), cause: Some(cause), source: Some(source) }
    }
}

impl<S, E> ConversionError<S, E> {
    /// Constructs an error value without an OS cause.
    pub fn from_source_and_details(source: S, details: E) -> (r: Self)
        ensures
            r.source == Some(source),
            r.cause is None,
            r.details == details,
    {
        ConversionError { details, cause: None, source: Some(source) }
    }

    /// Maps the type with which ownership over the input is returned using the
    /// given closure.
    pub fn map_source<Sb, F: FnOnce(S) -> Sb>(self, f: F) -> (r: ConversionError<Sb, E>)
        requires
            self.source is Some ==> call_requires(f, (self.source->Some_0,)),
        ensures
            r.details == self.details,
            r.cause == self.cause,
            self.source is None ==> r.source is None,
            self.source is Some ==> r.source is Some && call_ensures(
                f,
                (self.source->Some_0,),
                r.source->Some_0,
            ),
    {
        let ConversionError { details, cause, source } = self;
        let source = match source {
            Some(s) => Some(f(s)),
            None => None,
        };
        ConversionError { details, cause, source }
    }

    /// Maps the type with which ownership over the input is returned using the
    /// given closure, also allowing it to drop the ownership.
    pub fn try_map_source<Sb, F: FnOnce(S) -> Option<Sb>>(self, f: F) -> (r: ConversionError<
        Sb,
        E,
    >)
        requires
            self.source is Some ==> call_requires(f, (self.source->Some_0,)),
        ensures
            r.details == self.details,
            r.cause == self.cause,
            self.source is None ==> r.source is None,
            self.source is Some ==> call_ensures(f, (self.source->Some_0,), r.source),
    {
        let ConversionError { details, cause, source } = self;
        let source = match source {
            Some(s) => f(s),
            None => None,
        };
        ConversionError { details, cause, source }
    }
}


impl<S, E: Default> From<S> for ConversionError<S, E> {
    /// Constructs an error value without an OS cause and with default
    /// contents for the details field.
    fn from(source: S) -> (r: Self)
        ensures
            r.source == Some(source),
            r.cause is None,
            call_ensures(E::default, (), r.details),
    {
        ConversionError { details: Default::default(), cause: None, source: Some(source) }
    }
}

impl<S, E: Default> vstd::std_specs::convert::FromSpecImpl<S> for ConversionError<S, E> {
    open spec fn obeys_from_spec() -> bool {
        false
    }

    open spec fn from_spec(s: S) -> Self {
        arbitrary()
    }
}

/// Accumulates error text, remembering whether any piece of it was
/// non-empty, so that a separator is never emitted in front of nothing.
struct FormatSnooper {
    out: String,
    anything_written: bool,
}

impl FormatSnooper {
    fn new() -> (r: Self)
        ensures
            r.out@ == Seq::<char>::empty(),
            !r.anything_written,
    {
        FormatSnooper { out: String::new(), anything_written: false }
    }

    fn write_str(&mut self, s: &str)
        ensures
            final(self).out@ == old(self).out@ + s@,
            final(self).anything_written == (old(self).anything_written || s@.len() > 0),
    {
        if !s.is_empty() {
            self.anything_written = true;
            self.out.append(s);
        } else {
            proof {
                assert(self.out@ + s@ =~= self.out@);
            }
        }
    }

    fn anything_written(&self) -> (r: bool)
        ensures
            r == self.anything_written,
    {
        self.anything_written
    }

    fn into_string(self) -> (r: String)
        ensures
            r@ == self.out@,
    {
        self.out
    }
}

/// Relies on the `Display` implementation of `std::io::Error` for the text
/// of an underlying OS error.
#[verifier::external_body]
fn io_error_message(e: &std::io::Error) -> String {
    format!("{}", e)
}

/// Relies on `std::io::Error::new` to box a composed message into a plain
/// I/O error value.
#[verifier::external_body]
fn io_error_other(msg: String) -> std::io::Error {
    std::io::Error::new(std::io::ErrorKind::Other, msg)
}

impl<S, E: ErrorDetails> ConversionError<S, E> {
    /// The human-readable text of the error: the details description, then
    /// the OS cause, with the `": "` separator only when the details
    /// contributed text — so the message never opens with a dangling
    /// separator.
    pub fn message(&self) -> (r: String)
        ensures
            self.cause is None ==> r@ == self.details.message_spec(),
            self.cause is Some && self.details.message_spec().len() > 0 ==> r@.len()
                >= self.details.message_spec().len() + 2 && r@.subrange(
                0,
                self.details.message_spec().len() as int,
            ) == self.details.message_spec() && r@[self.details.message_spec().len() as int]
                == ':' && r@[self.details.message_spec().len() as int + 1] == ' ',
    {
        let mut snp = FormatSnooper::new();
        let dm = self.details.message();
        snp.write_str(dm.as_str());
        if let Some(e) = &self.cause {
            let ct = io_error_message(e);
            if snp.anything_written() {
                snp.write_str(": ");
            }
            snp.write_str(ct.as_str());
        }
        let r = snp.into_string();
        proof {
            let dms = self.details.message_spec();
            if self.cause is None {
                assert(Seq::<char>::empty() + dms =~= dms);
            } else if dms.len() > 0 {
                reveal_strlit(": ");
                assert((Seq::<char>::empty() + dms).subrange(0, dms.len() as int) =~= dms);
                assert(r@.subrange(0, dms.len() as int) =~= dms);
            }
        }
        r
    }

    /// Boxes the error into a plain I/O error carrying the composed message.
    /// This is the explicit, lossy escape hatch: the retained resource does
    /// not survive it.
    pub fn to_io_error(&self) -> std::io::Error {
        io_error_other(self.message())
    }
}

/// Marker type used as the generic argument of [`ConversionError`] to denote
/// that there are no error details.
#[derive(Clone, Copy, Debug, PartialEq, Eq, Structural)]
pub struct NoDetails;

impl Default for NoDetails {
    /// Returns the sole value of the type.
    fn default() -> (r: Self)
        ensures
            r == NoDetails,
    {
        NoDetails
    }
}

impl ErrorDetails for NoDetails {
    /// `NoDetails` contributes no text to the error message.
    open spec fn message_spec(&self) -> Seq<char> {
        Seq::empty()
    }

    fn message(&self) -> (r: String) {
        String::new()
    }
}

} // verus!
