//! Errors reported to the user, and the line that reports them.
use vstd::prelude::*;
use crate::ansi::ansi::Ansi;
use crate::extension::{path_file_name, PathBufExt};
use crate::location::SourcePosition;
use crate::text::{decimal, push_decimal, push_str, to_owned_string};

verus! {

/// An error of some kind (`命令` for the command line, `配置` for
/// configuration), with an optional file and position it is about.
#[derive(Debug)]
pub struct PzlError {
    pub kind: String,
    pub path: Option<String>,
    pub position: Option<SourcePosition>,
    pub msg: String,
}

/// The mathematical value of a [`PzlError`].
pub struct PzlErrorView {
    pub kind: Seq<char>,
    pub path: Option<Seq<char>>,
    pub position: Option<SourcePosition>,
    pub msg: Seq<char>,
}

/// The view of an optional string.
pub open spec fn opt_view(s: Option<String>) -> Option<Seq<char>> {
    match s {
        Some(x) => Some(x@),
        None => None,
    }
}

impl View for PzlError {
    type V = PzlErrorView;

    open spec fn view(&self) -> PzlErrorView {
        PzlErrorView {
            kind: self.kind@,
            path: opt_view(self.path),
            position: self.position,
            msg: self.msg@,
        }
    }
}

/// The error value with the given parts.
pub open spec fn error_value(
    kind: Seq<char>,
    path: Option<Seq<char>>,
    position: Option<SourcePosition>,
    msg: Seq<char>,
) -> PzlErrorView {
    PzlErrorView { kind, path, position, msg }
}

/// Whether the line reporting `e` can be written: the file it names has a
/// final component.
pub open spec fn reportable(e: PzlErrorView) -> bool {
    e.path matches Some(p) ==> path_file_name(p) is Some
}

/// The location suffix of a report: `\n位置: <file>[:<line>:<column>]`, or nothing
/// when the error names no file.
pub open spec fn location_text(e: PzlErrorView) -> Seq<char> {
    match (e.path, e.position) {
        (Some(p), Some(pos)) => "\n位置: "@ + path_file_name(p).unwrap() + ":"@ + decimal(
            pos.line as nat,
        ) + ":"@ + decimal(pos.column as nat),
        (Some(p), None) => "\n位置: "@ + path_file_name(p).unwrap(),
        (_, _) => Seq::empty(),
    }
}

/// The line that reports `e`: in red, `[<kind>错误] <msg>`, the location, and a
/// reset of the terminal attributes.
pub open spec fn report_text(e: PzlErrorView) -> Seq<char> {
    Ansi::Red.escape() + "["@ + e.kind + "错误] "@ + e.msg + location_text(e)
        + Ansi::Reset.escape()
}

/// The error of the given kind about the given file and position.
pub fn pzl_error(
    kind: &str,
    path: Option<&String>,
    position: Option<SourcePosition>,
    msg: &str,
) -> (e: PzlError)
    ensures
        e@ == error_value(
            kind@,
            match path {
                Some(p) => Some(p@),
                None => None,
            },
            position,
            msg@,
        ),
{
    let path = match path {
        Some(p) => Some(p.clone()),
        None => None,
    };
    PzlError { kind: to_owned_string(kind), path, position, msg: to_owned_string(msg) }
}

impl PzlError {
    /// The line that reports this error on the terminal.
    pub fn message(&self) -> (r: String)
        requires
            reportable(self@),
        ensures
            r@ == report_text(self@),
    {
        let mut r = String::new();
        push_str(&mut r, Ansi::Red.to_str());
        push_str(&mut r, "[");
        push_str(&mut r, self.kind.as_str());
        push_str(&mut r, "错误] ");
        push_str(&mut r, self.msg.as_str());
        match &self.path {
            Some(p) => {
                push_str(&mut r, "\n位置: ");
                let name = p.file_name_string();
                push_str(&mut r, name.as_str());
                match &self.position {
                    Some(pos) => {
                        push_str(&mut r, ":");
                        push_decimal(&mut r, pos.line as u64);
                        push_str(&mut r, ":");
                        push_decimal(&mut r, pos.column as u64);
                    },
                    None => {},
                }
            },
            None => {},
        }
        push_str(&mut r, Ansi::Reset.to_str());
        r
    }
}

} // verus!
