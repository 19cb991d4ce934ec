use datafusion::arrow::error::ArrowError;
use deadpool::managed::{BuildError, PoolError};
use std::fmt::Debug;
use tokio::sync::mpsc::error::SendError;
use vstd::prelude::*;
use vstd::std_specs::convert::FromSpecImpl;
use vstd::string::*;

verus! {

/// What a store answers when it cannot do what it is asked.
#[verifier::external_type_specification]
#[verifier::external_body]
pub struct ExStoreError(opendal::Error);

/// Why a pool has no connection to hand out.
#[verifier::external_type_specification]
#[verifier::external_body]
#[verifier::reject_recursive_types(E)]
pub struct ExPoolError<E>(PoolError<E>);

/// Why a pool could not be made.
#[verifier::external_type_specification]
#[verifier::external_body]
pub struct ExBuildError(BuildError);

/// What could not be sent, as its receiver is gone.
#[verifier::external_type_specification]
#[verifier::external_body]
#[verifier::reject_recursive_types(T)]
pub struct ExSendError<T>(SendError<T>);

/// What can go wrong while a table over an object store is read or written. Every
/// variant carries the message that is shown to the user.
#[derive(Debug)]
pub enum OpenDALExecError {
    OpenDALErr(String),
    PoolErr(String),
    ArrowErr(String),
    InvalidSchema(String),
    OverwriteError(String),
    SendErr(String),
}

/// The mathematical counterpart of [`OpenDALExecError`].
pub enum ErrorView {
    OpenDALErr(Seq<char>),
    PoolErr(Seq<char>),
    ArrowErr(Seq<char>),
    InvalidSchema(Seq<char>),
    OverwriteError(Seq<char>),
    SendErr(Seq<char>),
}

impl ErrorView {
    /// The message that an error carries.
    pub open spec fn message(self) -> Seq<char> {
        match self {
            ErrorView::OpenDALErr(text) => text,
            ErrorView::PoolErr(text) => text,
            ErrorView::ArrowErr(text) => text,
            ErrorView::InvalidSchema(text) => text,
            ErrorView::OverwriteError(text) => text,
            ErrorView::SendErr(text) => text,
        }
    }

    /// The name of the variant.
    pub open spec fn variant(self) -> Seq<char> {
        match self {
            ErrorView::OpenDALErr(_) => "OpenDALErr"@,
            ErrorView::PoolErr(_) => "PoolErr"@,
            ErrorView::ArrowErr(_) => "ArrowErr"@,
            ErrorView::InvalidSchema(_) => "InvalidSchema"@,
            ErrorView::OverwriteError(_) => "OverwriteError"@,
            ErrorView::SendErr(_) => "SendErr"@,
        }
    }

    /// The words in which the query engine reports an error: the variant's name and the
    /// quoted message in brackets.
    pub open spec fn report(self) -> Seq<char> {
        reported(self.variant(), quoted(self.message()))
    }
}

/// A name with its argument in brackets.
pub open spec fn reported(name: Seq<char>, argument: Seq<char>) -> Seq<char> {
    name + "("@ + argument + ")"@
}

/// A text in quotes, as `Debug` of `str` writes it: some characters are escaped.
pub uninterp spec fn quoted(text: Seq<char>) -> Seq<char>;

/// Calls `Debug` of `std`'s `str`, and claims that what it writes depends on the text alone.
#[verifier::external_body]
fn quote(text: &str) -> (quoted_text: String)
    ensures
        quoted_text@ == quoted(text@),
{
    format!("{:?}", text)
}

/// A name with its argument in brackets.
pub fn report_of(name: &str, argument: &str) -> (text: String)
    ensures
        text@ == reported(name@, argument@),
{
    let mut text = name.to_string();
    text.append("(");
    text.append(argument);
    text.append(")");
    text
}

impl View for OpenDALExecError {
    type V = ErrorView;

    open spec fn view(&self) -> ErrorView {
        match self {
            OpenDALExecError::OpenDALErr(text) => ErrorView::OpenDALErr(text@),
            OpenDALExecError::PoolErr(text) => ErrorView::PoolErr(text@),
            OpenDALExecError::ArrowErr(text) => ErrorView::ArrowErr(text@),
            OpenDALExecError::InvalidSchema(text) => ErrorView::InvalidSchema(text@),
            OpenDALExecError::OverwriteError(text) => ErrorView::OverwriteError(text@),
            OpenDALExecError::SendErr(text) => ErrorView::SendErr(text@),
        }
    }
}

impl OpenDALExecError {
    /// The text under which an error is displayed: its message, without the variant's name.
    pub fn message(&self) -> (text: String)
        ensures
            text@ == self@.message(),
            match *self {
                OpenDALExecError::OpenDALErr(inner) => text@ == inner@,
                OpenDALExecError::PoolErr(inner) => text@ == inner@,
                OpenDALExecError::ArrowErr(inner) => text@ == inner@,
                OpenDALExecError::InvalidSchema(inner) => text@ == inner@,
                OpenDALExecError::OverwriteError(inner) => text@ == inner@,
                OpenDALExecError::SendErr(inner) => text@ == inner@,
            },
    {
        match self {
            OpenDALExecError::OpenDALErr(inner) => inner.clone(),
            OpenDALExecError::PoolErr(inner) => inner.clone(),
            OpenDALExecError::ArrowErr(inner) => inner.clone(),
            OpenDALExecError::InvalidSchema(inner) => inner.clone(),
            OpenDALExecError::OverwriteError(inner) => inner.clone(),
            OpenDALExecError::SendErr(inner) => inner.clone(),
        }
    }

    /// The name of the variant.
    fn variant(&self) -> (name: &'static str)
        ensures
            name@ == self@.variant(),
    {
        match self {
            OpenDALExecError::OpenDALErr(_) => "OpenDALErr",
            OpenDALExecError::PoolErr(_) => "PoolErr",
            OpenDALExecError::ArrowErr(_) => "ArrowErr",
            OpenDALExecError::InvalidSchema(_) => "InvalidSchema",
            OpenDALExecError::OverwriteError(_) => "OverwriteError",
            OpenDALExecError::SendErr(_) => "SendErr",
        }
    }

    /// The words in which the query engine reports an error.
    pub fn report(&self) -> (text: String)
        ensures
            text@ == self@.report(),
    {
        report_of(self.variant(), quote(self.message().as_str()).as_str())
    }
}

/// Calls `Debug` of `opendal`'s `Error`. Of the text it is claimed only that it is not
/// empty: it may hold a backtrace and the words of whatever caused the error.
#[verifier::external_body]
fn store_error_text(error: &opendal::Error) -> (text: String)
    ensures
        text@.len() > 0,
{
    format!("{:?}", error)
}

/// Calls `Debug` of `deadpool`'s `PoolError`. Of the text it is claimed only that it is not
/// empty: after the variant's name it holds what the backend's own error writes of itself.
#[verifier::external_body]
fn pool_error_text<E: Debug>(error: &PoolError<E>) -> (text: String)
    ensures
        text@.len() > 0,
{
    format!("{:?}", error)
}

/// Calls `Debug` of `arrow`'s `ArrowError`. Of the text it is claimed only that it is not
/// empty: after the variant's name it may hold what an error from elsewhere writes of
/// itself.
#[verifier::external_body]
fn arrow_error_text(error: &ArrowError) -> (text: String)
    ensures
        text@.len() > 0,
{
    format!("{:?}", error)
}

/// Calls `Debug` of `deadpool`'s `BuildError`: the name of its one variant.
#[verifier::external_body]
fn build_error_text(error: &BuildError) -> (text: String)
    ensures
        text@ == "NoRuntimeSpecified"@,
{
    format!("{:?}", error)
}

/// Calls `Debug` of `tokio`'s `SendError`: the name of the type, without what could not be
/// sent.
#[verifier::external_body]
fn send_error_text<T>(error: &SendError<T>) -> (text: String)
    ensures
        text@ == "SendError { .. }"@,
{
    format!("{:?}", error)
}

/// The failure that a store reports in the given words.
pub fn store_failure(text: String) -> (error: OpenDALExecError)
    ensures
        error@ == ErrorView::OpenDALErr(text@),
{
    OpenDALExecError::OpenDALErr(text)
}

/// The failure that a pool of connections reports in the given words.
pub fn pool_failure(text: String) -> (error: OpenDALExecError)
    ensures
        error@ == ErrorView::PoolErr(text@),
{
    OpenDALExecError::PoolErr(text)
}

/// The failure that arrays report in the given words.
pub fn arrow_failure(text: String) -> (error: OpenDALExecError)
    ensures
        error@ == ErrorView::ArrowErr(text@),
{
    OpenDALExecError::ArrowErr(text)
}

/// The failure that a channel reports in the given words.
pub fn send_failure(text: String) -> (error: OpenDALExecError)
    ensures
        error@ == ErrorView::SendErr(text@),
{
    OpenDALExecError::SendErr(text)
}

/// Whether a text is one in which `Debug` may write an error of a store.
pub closed spec fn words_of_store(err: opendal::Error, text: String) -> bool {
    call_ensures(store_error_text, (&err,), text)
}

/// Whether a text is one in which `Debug` may write an error of a pool.
pub closed spec fn words_of_pool<E: Debug>(err: PoolError<E>, text: String) -> bool {
    call_ensures(pool_error_text::<E>, (&err,), text)
}

/// Whether a text is one in which `Debug` may write an error of arrays.
pub closed spec fn words_of_arrays(err: ArrowError, text: String) -> bool {
    call_ensures(arrow_error_text, (&err,), text)
}

impl From<opendal::Error> for OpenDALExecError {
    fn from(err: opendal::Error) -> (error: Self)
        ensures
            exists|text: String| #[trigger]
                words_of_store(err, text) && error@ == ErrorView::OpenDALErr(text@),
            error@.message().len() > 0,
    {
        let text = store_error_text(&err);
        assert(words_of_store(err, text));
        store_failure(text)
    }
}

impl FromSpecImpl<opendal::Error> for OpenDALExecError {
    open spec fn obeys_from_spec() -> bool {
        false
    }

    open spec fn from_spec(err: opendal::Error) -> Self {
        arbitrary()
    }
}

impl<E: Debug> From<PoolError<E>> for OpenDALExecError {
    fn from(err: PoolError<E>) -> (error: Self)
        ensures
            exists|text: String| #[trigger]
                words_of_pool(err, text) && error@ == ErrorView::PoolErr(text@),
            error@.message().len() > 0,
    {
        let text = pool_error_text(&err);
        assert(words_of_pool(err, text));
        pool_failure(text)
    }
}

impl<E: Debug> FromSpecImpl<PoolError<E>> for OpenDALExecError {
    open spec fn obeys_from_spec() -> bool {
        false
    }

    open spec fn from_spec(err: PoolError<E>) -> Self {
        arbitrary()
    }
}

impl<T: Debug> From<SendError<T>> for OpenDALExecError {
    fn from(err: SendError<T>) -> (error: Self)
        ensures
            error@ == ErrorView::SendErr("SendError { .. }"@),
    {
        send_failure(send_error_text(&err))
    }
}

impl<T: Debug> FromSpecImpl<SendError<T>> for OpenDALExecError {
    open spec fn obeys_from_spec() -> bool {
        false
    }

    open spec fn from_spec(err: SendError<T>) -> Self {
        arbitrary()
    }
}

impl From<ArrowError> for OpenDALExecError {
    fn from(err: ArrowError) -> (error: Self)
        ensures
            exists|text: String| #[trigger]
                words_of_arrays(err, text) && error@ == ErrorView::ArrowErr(text@),
            error@.message().len() > 0,
    {
        let text = arrow_error_text(&err);
        assert(words_of_arrays(err, text));
        arrow_failure(text)
    }
}

impl FromSpecImpl<ArrowError> for OpenDALExecError {
    open spec fn obeys_from_spec() -> bool {
        false
    }

    open spec fn from_spec(err: ArrowError) -> Self {
        arbitrary()
    }
}

impl From<BuildError> for OpenDALExecError {
    fn from(err: BuildError) -> (error: Self)
        ensures
            error@ == ErrorView::PoolErr("NoRuntimeSpecified"@),
    {
        pool_failure(build_error_text(&err))
    }
}

impl FromSpecImpl<BuildError> for OpenDALExecError {
    open spec fn obeys_from_spec() -> bool {
        false
    }

    open spec fn from_spec(err: BuildError) -> Self {
        arbitrary()
    }
}

} // verus!
