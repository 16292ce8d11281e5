//! Errors of the command line tool and the exit code that each one gives.

use vstd::prelude::*;

verus! {

#[verifier::external_type_specification]
#[verifier::external_body]
pub struct ExAnyhowError(anyhow::Error);

#[verifier::external_type_specification]
#[verifier::external_body]
pub struct ExIoError(std::io::Error);

#[verifier::external_type_specification]
#[verifier::external_body]
pub struct ExCargoMetadataError(cargo_metadata::Error);

#[verifier::external_type_specification]
#[verifier::external_body]
pub struct ExTameIndexError(tame_index::Error);

#[verifier::external_type_specification]
#[verifier::external_body]
pub struct ExReqwestError(tame_index::external::reqwest::Error);

/// The result of an operation that may fail with any error.
pub type CargoResult<T> = Result<T, anyhow::Error>;

/// What the contracts know of a [`CliError`]: whether it carries an error to
/// report, and the process exit code.
pub struct CliErrorView {
    pub has_error: bool,
    pub code: i32,
}

/// An error of the command line tool: an optional error to report and the
/// exit code of the process.
#[derive(Debug)]
pub struct CliError {
    error: Option<anyhow::Error>,
    code: i32,
}

impl CliError {
    /// The error to report, if any.
    pub closed spec fn reported(&self) -> Option<anyhow::Error> {
        self.error
    }
}

impl View for CliError {
    type V = CliErrorView;

    closed spec fn view(&self) -> CliErrorView {
        CliErrorView { has_error: self.error is Some, code: self.code }
    }
}

/// The exit code of an error that carries a message.
pub const MESSAGE_EXIT_CODE: i32 = 101;

/// `anyhow::Error`'s `Display`, through `ToString::to_string`. The text that
/// it gives is the error's outermost message; nothing is stated of it.
#[verifier::external_body]
fn anyhow_error_text(error: &anyhow::Error) -> String {
    error.to_string()
}

/// `anyhow::Error::from`, which wraps an error, keeping it as its source.
/// Nothing is stated of the value it gives: it carries the wrapped error,
/// which the contracts cannot see into.
#[verifier::external_body]
pub(crate) fn into_anyhow<E: std::error::Error + Send + Sync + 'static>(error: E) -> anyhow::Error {
    anyhow::Error::from(error)
}

impl CliError {
    /// An error that reports nothing and exits with `code`.
    pub fn silent(code: i32) -> (res: Self)
        ensures
            res@ == (CliErrorView { has_error: false, code }),
            res.reported() is None,
    {
        Self { error: None, code }
    }

    /// An error that reports `e` and exits with code 101.
    pub fn message(e: anyhow::Error) -> (res: Self)
        ensures
            res@ == (CliErrorView { has_error: true, code: MESSAGE_EXIT_CODE }),
            res.reported() == Some(e),
    {
        Self { error: Some(e), code: MESSAGE_EXIT_CODE }
    }

    /// The exit code.
    pub fn code(&self) -> (res: i32)
        ensures
            res == self@.code,
    {
        self.code
    }

    /// The error to report, if any.
    pub fn error(&self) -> (res: Option<&anyhow::Error>)
        ensures
            res is Some <==> self@.has_error,
            res matches Some(r) ==> self.reported() == Some(*r),
    {
        match &self.error {
            Some(e) => Some(e),
            None => None,
        }
    }

    /// The text that `Display` shows: the reported error's message, or
    /// nothing for a silent error.
    pub fn to_string(&self) -> (res: String)
        ensures
            !self@.has_error ==> res@ == Seq::<char>::empty(),
    {
        match &self.error {
            Some(e) => anyhow_error_text(e),
            None => String::new(),
        }
    }
}

impl From<i32> for CliError {
    fn from(code: i32) -> (res: Self)
        ensures
            res@ == (CliErrorView { has_error: false, code }),
            res.reported() is None,
    {
        Self::silent(code)
    }
}

impl vstd::std_specs::convert::FromSpecImpl<i32> for CliError {
    open spec fn obeys_from_spec() -> bool {
        true
    }

    closed spec fn from_spec(code: i32) -> CliError {
        CliError { error: None, code }
    }
}

impl From<anyhow::Error> for CliError {
    fn from(error: anyhow::Error) -> (res: Self)
        ensures
            res@ == (CliErrorView { has_error: true, code: MESSAGE_EXIT_CODE }),
            res.reported() == Some(error),
    {
        Self::message(error)
    }
}

impl vstd::std_specs::convert::FromSpecImpl<anyhow::Error> for CliError {
    open spec fn obeys_from_spec() -> bool {
        true
    }

    closed spec fn from_spec(error: anyhow::Error) -> CliError {
        CliError { error: Some(error), code: MESSAGE_EXIT_CODE }
    }
}

impl From<std::io::Error> for CliError {
    /// Reports the error, wrapped in an `anyhow::Error`, and exits with 101.
    fn from(error: std::io::Error) -> (res: Self)
        ensures
            res@ == (CliErrorView { has_error: true, code: MESSAGE_EXIT_CODE }),
            res.reported() is Some,
    {
        Self::message(into_anyhow(error))
    }
}

/// The wrapping into `anyhow::Error` is not modelled in specifications, so
/// this conversion has no spec-level counterpart; the `ensures` of `from`
/// says what it gives.
impl vstd::std_specs::convert::FromSpecImpl<std::io::Error> for CliError {
    open spec fn obeys_from_spec() -> bool {
        false
    }

    closed spec fn from_spec(error: std::io::Error) -> CliError {
        CliError { error: None, code: MESSAGE_EXIT_CODE }
    }
}

impl From<cargo_metadata::Error> for CliError {
    /// Reports the error, wrapped in an `anyhow::Error`, and exits with 101.
    fn from(error: cargo_metadata::Error) -> (res: Self)
        ensures
            res@ == (CliErrorView { has_error: true, code: MESSAGE_EXIT_CODE }),
            res.reported() is Some,
    {
        Self::message(into_anyhow(error))
    }
}

/// The wrapping into `anyhow::Error` is not modelled in specifications, so
/// this conversion has no spec-level counterpart; the `ensures` of `from`
/// says what it gives.
impl vstd::std_specs::convert::FromSpecImpl<cargo_metadata::Error> for CliError {
    open spec fn obeys_from_spec() -> bool {
        false
    }

    closed spec fn from_spec(error: cargo_metadata::Error) -> CliError {
        CliError { error: None, code: MESSAGE_EXIT_CODE }
    }
}

impl From<tame_index::Error> for CliError {
    /// Reports the error, wrapped in an `anyhow::Error`, and exits with 101.
    fn from(error: tame_index::Error) -> (res: Self)
        ensures
            res@ == (CliErrorView { has_error: true, code: MESSAGE_EXIT_CODE }),
            res.reported() is Some,
    {
        Self::message(into_anyhow(error))
    }
}

/// The wrapping into `anyhow::Error` is not modelled in specifications, so
/// this conversion has no spec-level counterpart; the `ensures` of `from`
/// says what it gives.
impl vstd::std_specs::convert::FromSpecImpl<tame_index::Error> for CliError {
    open spec fn obeys_from_spec() -> bool {
        false
    }

    closed spec fn from_spec(error: tame_index::Error) -> CliError {
        CliError { error: None, code: MESSAGE_EXIT_CODE }
    }
}

impl From<tame_index::external::reqwest::Error> for CliError {
    /// Reports the error, wrapped in an `anyhow::Error`, and exits with 101.
    fn from(error: tame_index::external::reqwest::Error) -> (res: Self)
        ensures
            res@ == (CliErrorView { has_error: true, code: MESSAGE_EXIT_CODE }),
            res.reported() is Some,
    {
        Self::message(into_anyhow(error))
    }
}

/// The wrapping into `anyhow::Error` is not modelled in specifications, so
/// this conversion has no spec-level counterpart; the `ensures` of `from`
/// says what it gives.
impl vstd::std_specs::convert::FromSpecImpl<tame_index::external::reqwest::Error> for CliError {
    open spec fn obeys_from_spec() -> bool {
        false
    }

    closed spec fn from_spec(error: tame_index::external::reqwest::Error) -> CliError {
        CliError { error: None, code: MESSAGE_EXIT_CODE }
    }
}

/// The exit code of the outcome of a command (`None` for success): 0 on
/// success, the error's code otherwise.
pub open spec fn exit_code(outcome: Option<CliErrorView>) -> i32 {
    match outcome {
        None => 0,
        Some(e) => e.code,
    }
}

/// The exit code for the outcome of a command: 0 on success, the error's
/// code otherwise. Printing the reported error is left to the caller.
pub fn report(result: Result<(), CliError>) -> (code: i32)
    ensures
        code == exit_code(match result {
            Ok(()) => None,
            Err(e) => Some(e@),
        }),
{
    match result {
        Ok(()) => 0,
        Err(err) => err.code,
    }
}

/// Success exits with 0, a silent error with its own code, and an error that
/// carries a message with 101, so that it always reads as a failure.
pub proof fn law_exit_codes(code: i32)
    ensures
        exit_code(None) == 0,
        exit_code(Some(CliErrorView { has_error: false, code })) == code,
        exit_code(Some(CliErrorView { has_error: true, code: MESSAGE_EXIT_CODE })) == 101,
        exit_code(Some(CliErrorView { has_error: true, code: MESSAGE_EXIT_CODE })) != 0,
{
}

} // verus!
