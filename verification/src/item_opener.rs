//! Opening downloaded catalog items in the system's default application.

use vstd::prelude::*;
use vstd::string::StringExecFns;

use crate::chars::{chars_of, contains_chars, occurs_in};
use crate::model::LibraryItemFile;
use crate::paths::{join_path, path_exists, path_joined};

verus! {

/// Errors that can occur when attempting to open an item.
#[derive(Debug, Clone, PartialEq, Eq)]
pub enum OpenError {
    /// The file was not found at the specified path.
    FileNotFound(String),
    /// No default application is configured for this file type.
    NoDefaultApp,
    /// The operating system failed to open the file.
    OsFailed(String),
    /// Multiple files exist and user selection is required.
    MultipleFilesRequireSelection,
}

impl OpenError {
    /// The error's message text.
    pub fn message(&self) -> (m: String)
        ensures
            m@ == open_error_message(*self),
    {
        match self {
            OpenError::FileNotFound(p) => {
                let mut m = String::from_str("File not found: ");
                m.append(p.as_str());
                m
            },
            OpenError::NoDefaultApp => String::from_str(
                "No default application configured for this file type",
            ),
            OpenError::OsFailed(e) => {
                let mut m = String::from_str("Failed to open file: ");
                m.append(e.as_str());
                m
            },
            OpenError::MultipleFilesRequireSelection => String::from_str(
                "Multiple files require selection",
            ),
        }
    }
}

/// Message text of each error.
pub open spec fn open_error_message(e: OpenError) -> Seq<char> {
    match e {
        OpenError::FileNotFound(p) => "File not found: "@ + p@,
        OpenError::NoDefaultApp => "No default application configured for this file type"@,
        OpenError::OsFailed(m) => "Failed to open file: "@ + m@,
        OpenError::MultipleFilesRequireSelection => "Multiple files require selection"@,
    }
}

/// Classifies an OS launch failure by its message.
pub fn classify_launch_error(message: String) -> (e: OpenError)
    ensures
        match e {
            OpenError::NoDefaultApp => occurs_in("no default application"@, message@) || occurs_in(
                "no associated application"@,
                message@,
            ),
            OpenError::OsFailed(m) => m@ == message@ && !occurs_in(
                "no default application"@,
                message@,
            ) && !occurs_in("no associated application"@, message@),
            _ => false,
        },
{
    let text = chars_of(message.as_str());
    let a = chars_of("no default application");
    let b = chars_of("no associated application");
    if contains_chars(&text, &a) || contains_chars(&text, &b) {
        OpenError::NoDefaultApp
    } else {
        OpenError::OsFailed(message)
    }
}

/// Launches `path` in the system's default application through the `open`
/// crate's `open::that`, reporting a failure by its message. Nothing is
/// claimed about the outcome: it depends on the operating system.
#[verifier::external_body]
pub(crate) fn launch(path: &str) -> (r: Result<(), String>) {
    match open::that(path) {
        Ok(()) => Ok(()),
        Err(e) => Err(e.to_string()),
    }
}

/// What opening a path can come to, given whether it exists and what the
/// launch answered.
pub open spec fn open_result_ok(path: Seq<char>, r: Result<(), OpenError>) -> bool {
    match r {
        Ok(()) => true,
        Err(OpenError::FileNotFound(p)) => p@ == path,
        Err(OpenError::NoDefaultApp) => true,
        Err(OpenError::OsFailed(_)) => true,
        Err(OpenError::MultipleFilesRequireSelection) => false,
    }
}

/// How `finish_open` classifies a launcher's answer.
pub open spec fn launch_classified(launched: Result<(), String>, r: Result<(), OpenError>) -> bool {
    match launched {
        Ok(()) => r == Ok::<(), OpenError>(()),
        Err(message) => r matches Err(e) && match e {
            OpenError::NoDefaultApp => occurs_in("no default application"@, message@) || occurs_in(
                "no associated application"@,
                message@,
            ),
            OpenError::OsFailed(m) => m@ == message@ && !occurs_in(
                "no default application"@,
                message@,
            ) && !occurs_in("no associated application"@, message@),
            _ => false,
        },
    }
}

/// `r` is the outcome of opening `path` given whether it was `present` and,
/// when it was, what the launcher answered.
pub open spec fn opened_as(
    path: Seq<char>,
    present: bool,
    launched: Option<Result<(), String>>,
    r: Result<(), OpenError>,
) -> bool {
    if present {
        launched matches Some(answer) && launch_classified(answer, r)
    } else {
        r matches Err(OpenError::FileNotFound(p)) && p@ == path
    }
}

/// `r` is what `open_outcome` makes of the system's answers about `path`
/// itself: the existence check was asked about `path`, and only when it
/// answered yes was `path` handed to the launcher, whose answer was then
/// classified. (Closed because the two system calls are crate-internal.)
pub closed spec fn opened_through_system(path: &str, r: Result<(), OpenError>) -> bool {
    exists|e: bool|
        call_ensures(path_exists, (path,), e) && (e ==> exists|l: Result<(), String>|
            call_ensures(launch, (path,), l) && opened_as(path@, true, Some(l), r)) && (!e
            ==> opened_as(path@, false, None, r))
}

/// Service for opening files in the system's default application.
pub struct ItemOpener;

/// The path to open for an entry: the entry directory itself when no file is
/// known, the single file inside it, or none when several need a choice.
pub open spec fn open_target(entry_dir: Seq<char>, files: Seq<LibraryItemFile>) -> Option<Seq<char>> {
    if files.len() == 0 {
        Some(entry_dir)
    } else if files.len() == 1 {
        Some(path_joined(entry_dir, files[0].name@))
    } else {
        None
    }
}

impl ItemOpener {
    /// Finishes an open attempt from the launcher's answer.
    pub fn finish_open(launched: Result<(), String>) -> (r: Result<(), OpenError>)
        ensures
            launch_classified(launched, r),
    {
        match launched {
            Ok(()) => Ok(()),
            Err(message) => Err(classify_launch_error(message)),
        }
    }

    /// Decides an open attempt from what the filesystem and the launcher
    /// answered: a path that is not `present` is `FileNotFound(path)` and
    /// nothing was launched; a present one was launched once, and the
    /// launcher's answer is classified as `finish_open` does.
    pub fn open_outcome(path: &str, present: bool, launched: Option<Result<(), String>>) -> (r: Result<
        (),
        OpenError,
    >)
        requires
            present == launched is Some,
        ensures
            opened_as(path@, present, launched, r),
    {
        if !present {
            return Err(OpenError::FileNotFound(String::from_str(path)));
        }
        match launched {
            Some(answer) => ItemOpener::finish_open(answer),
            None => Err(OpenError::FileNotFound(String::from_str(path))),
        }
    }

    /// Opens the file at `path` in the system's default application: a path
    /// that does not exist is `FileNotFound(path)` and nothing is launched;
    /// otherwise it is launched once and a failure classified. Whether the
    /// path exists and what the launcher answers come from the system; the
    /// result is what `open_outcome` makes of those answers.
    pub fn open(path: &str) -> (r: Result<(), OpenError>)
        ensures
            open_result_ok(path@, r),
            exists|present: bool, launched: Option<Result<(), String>>|
                present == launched is Some && opened_as(path@, present, launched, r),
            opened_through_system(path, r),
    {
        let present = path_exists(path);
        if present {
            let launched = launch(path);
            let ghost answer = launched;
            let r = ItemOpener::open_outcome(path, true, Some(launched));
            assert(opened_as(path@, true, Some(answer), r));
            assert(call_ensures(launch, (path,), answer));
            r
        } else {
            let r = ItemOpener::open_outcome(path, false, None);
            assert(opened_as(path@, false, None, r));
            r
        }
    }

    /// Resolves what `open_item` opens: the entry directory when no file is
    /// known, the single file within it, or `MultipleFilesRequireSelection`
    /// when there are several.
    pub fn item_target(entry_dir: &str, files: &[LibraryItemFile]) -> (r: Result<
        String,
        OpenError,
    >)
        ensures
            match open_target(entry_dir@, files@) {
                Some(p) => r matches Ok(s) && s@ == p,
                None => r == Err::<String, OpenError>(OpenError::MultipleFilesRequireSelection),
            },
    {
        if files.len() == 0 {
            Ok(String::from_str(entry_dir))
        } else if files.len() == 1 {
            Ok(join_path(entry_dir, files[0].name.as_str()))
        } else {
            Err(OpenError::MultipleFilesRequireSelection)
        }
    }

    /// Opens a catalog entry's downloaded content given its file list: no
    /// known file opens the entry directory, one file opens that file, and
    /// several return `MultipleFilesRequireSelection` without opening
    /// anything.
    pub fn open_item(entry_dir: &str, files: &[LibraryItemFile]) -> (r: Result<(), OpenError>)
        ensures
            match open_target(entry_dir@, files@) {
                Some(p) => open_result_ok(p, r) && exists|
                    present: bool,
                    launched: Option<Result<(), String>>,
                | present == launched is Some && opened_as(p, present, launched, r) && exists|
                    s: &str,
                | s@ == p && opened_through_system(s, r),
                None => r == Err::<(), OpenError>(OpenError::MultipleFilesRequireSelection),
            },
    {
        match ItemOpener::item_target(entry_dir, files) {
            Ok(path) => {
                let s = path.as_str();
                let r = ItemOpener::open(s);
                assert(s@ == path@ && opened_through_system(s, r));
                r
            },
            Err(e) => Err(e),
        }
    }
}

} // verus!
