//! The errors of the flatpak service layer.

use vstd::prelude::*;
use crate::text::{dec_int, push_signed_decimal, push_str};

verus! {

/// What can go wrong when talking to `flatpak`.
#[derive(Debug, Clone)]
pub enum FlatpakError {
    Cli { code: i32, stderr: String },
    Parse { line: String, msg: String },
    NotFound(String),
    Io(String),
}

/// The abstract value of a `FlatpakError`: its texts as character sequences.
pub enum ErrorView {
    Cli { code: i32, stderr: Seq<char> },
    Parse { line: Seq<char>, msg: Seq<char> },
    NotFound(Seq<char>),
    Io(Seq<char>),
}

impl View for FlatpakError {
    type V = ErrorView;

    open spec fn view(&self) -> ErrorView {
        match self {
            FlatpakError::Cli { code, stderr } => ErrorView::Cli { code: *code, stderr: stderr@ },
            FlatpakError::Parse { line, msg } => ErrorView::Parse { line: line@, msg: msg@ },
            FlatpakError::NotFound(what) => ErrorView::NotFound(what@),
            FlatpakError::Io(what) => ErrorView::Io(what@),
        }
    }
}

pub type Result<T> = core::result::Result<T, FlatpakError>;

/// The human-readable text of an error.
pub open spec fn error_text(e: FlatpakError) -> Seq<char> {
    match e {
        FlatpakError::Cli { code, stderr } =>
            "flatpak exited with code "@ + dec_int(code as int) + ": "@ + stderr@,
        FlatpakError::Parse { line, msg } =>
            "failed to parse line: "@ + msg@ + "\n  line: "@ + line@,
        FlatpakError::NotFound(what) => "not found: "@ + what@,
        FlatpakError::Io(what) => "io error: "@ + what@,
    }
}

impl FlatpakError {
    /// The error's message, as the user sees it.
    pub fn to_string(&self) -> (r: String)
        ensures
            r@ == error_text(*self),
    {
        let mut s = String::new();
        match self {
            FlatpakError::Cli { code, stderr } => {
                push_str(&mut s, "flatpak exited with code ");
                push_signed_decimal(&mut s, *code as i64);
                push_str(&mut s, ": ");
                push_str(&mut s, stderr.as_str());
            },
            FlatpakError::Parse { line, msg } => {
                push_str(&mut s, "failed to parse line: ");
                push_str(&mut s, msg.as_str());
                push_str(&mut s, "\n  line: ");
                push_str(&mut s, line.as_str());
            },
            FlatpakError::NotFound(what) => {
                push_str(&mut s, "not found: ");
                push_str(&mut s, what.as_str());
            },
            FlatpakError::Io(what) => {
                push_str(&mut s, "io error: ");
                push_str(&mut s, what.as_str());
            },
        }
        assert(s@ =~= error_text(*self));
        s
    }
}

} // verus!
