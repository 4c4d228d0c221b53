//! The two kinds of failure and the exit code of each.

use vstd::prelude::*;

verus! {

/// A failure of an operation, with the message shown to the operator.
///
/// A `UserError` is a condition that corrected input resolves: a missing
/// project, a duplicate name, a malformed duration. A `SystemError` is a
/// failure of the store itself.
#[derive(Debug)]
pub enum AppError {
    UserError(String),
    SystemError(String),
}

/// An [`AppError`] with its message as a sequence of characters.
pub ghost enum ErrorView {
    User(Seq<char>),
    System(Seq<char>),
}

impl View for AppError {
    type V = ErrorView;

    open spec fn view(&self) -> ErrorView {
        match self {
            AppError::UserError(m) => ErrorView::User(m@),
            AppError::SystemError(m) => ErrorView::System(m@),
        }
    }
}

impl AppError {
    /// A user condition with the message `message`.
    pub fn user(message: &str) -> (r: AppError)
        ensures
            r@ == ErrorView::User(message@),
    {
        AppError::UserError(message.to_owned())
    }

    /// A user condition whose message is `before`, `subject` and `after` in
    /// a row.
    pub fn user_about(before: &str, subject: &str, after: &str) -> (r: AppError)
        ensures
            r@ == ErrorView::User(before@ + subject@ + after@),
    {
        let mut text = String::new();
        text.append(before);
        text.append(subject);
        text.append(after);
        assert(text@ =~= before@ + subject@ + after@);
        AppError::UserError(text)
    }

    /// A system condition with the message `message`.
    pub fn system(message: &str) -> (r: AppError)
        ensures
            r@ == ErrorView::System(message@),
    {
        AppError::SystemError(message.to_owned())
    }

    /// The process exit code: 1 for a user condition, 2 for a system
    /// condition.
    pub fn exit_code(&self) -> (r: i32)
        ensures
            r == (if self@ is User { 1i32 } else { 2i32 }),
    {
        match self {
            AppError::UserError(_) => 1,
            AppError::SystemError(_) => 2,
        }
    }

    /// The message, as shown to the operator.
    pub fn message(&self) -> (r: String)
        ensures
            r@ == match self@ {
                ErrorView::User(m) => m,
                ErrorView::System(m) => m,
            },
    {
        match self {
            AppError::UserError(m) => m.clone(),
            AppError::SystemError(m) => m.clone(),
        }
    }
}

} // verus!
