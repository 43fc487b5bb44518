use vstd::prelude::*;
use vstd::string::StringExecFns;

verus! {

/// Errors that can arise while loading a file into the cache.
///
/// `NotFound`, `PermissionDenied`, `IsDirectory` and `Other` classify the
/// operating-system failures when a path cannot be opened or read;
/// `InvalidEncoding` means the file's bytes are not valid text.
#[derive(Clone, Copy, Debug, PartialEq, Eq, Structural)]
pub enum FsError {
    NotFound,
    PermissionDenied,
    IsDirectory,
    InvalidEncoding,
    Other,
}

/// True if `needle` occurs contiguously somewhere in `hay`.
pub open spec fn contains_seq(hay: Seq<char>, needle: Seq<char>) -> bool {
    exists|i: int|
        0 <= i && i + needle.len() <= hay.len() && #[trigger] hay.subrange(i, i + needle.len())
            == needle
}

/// The text of the diagnostic message for an error on `path`.
pub open spec fn message_spec(e: FsError, path: Seq<char>) -> Seq<char> {
    match e {
        FsError::NotFound => "file not found (searched at "@ + path + ")"@,
        FsError::PermissionDenied => "failed to load file "@ + path + " (access denied)"@,
        FsError::IsDirectory => "failed to load file "@ + path + " (is a directory)"@,
        FsError::InvalidEncoding => "file "@ + path + " is not valid utf-8"@,
        FsError::Other => "failed to load file "@ + path,
    }
}

impl FsError {
    /// Render the error as a human-readable message that names the file.
    pub fn message(&self, path: &str) -> (r: String)
        ensures
            r@ == message_spec(*self, path@),
    {
        match self {
            FsError::NotFound => String::from_str("file not found (searched at ").concat(
                path,
            ).concat(")"),
            FsError::PermissionDenied => String::from_str("failed to load file ").concat(
                path,
            ).concat(" (access denied)"),
            FsError::IsDirectory => String::from_str("failed to load file ").concat(path).concat(
                " (is a directory)",
            ),
            FsError::InvalidEncoding => String::from_str("file ").concat(path).concat(
                " is not valid utf-8",
            ),
            FsError::Other => String::from_str("failed to load file ").concat(path),
        }
    }
}

/// The message for an error on `path` always names `path` itself.
pub proof fn lemma_message_names_path(e: FsError, path: Seq<char>)
    ensures
        contains_seq(message_spec(e, path), path),
{
    let m = message_spec(e, path);
    match e {
        FsError::NotFound => {
            let pre = "file not found (searched at "@;
            assert(m.subrange(pre.len() as int, pre.len() + path.len() as int) =~= path);
        },
        FsError::PermissionDenied => {
            let pre = "failed to load file "@;
            assert(m.subrange(pre.len() as int, pre.len() + path.len() as int) =~= path);
        },
        FsError::IsDirectory => {
            let pre = "failed to load file "@;
            assert(m.subrange(pre.len() as int, pre.len() + path.len() as int) =~= path);
        },
        FsError::InvalidEncoding => {
            let pre = "file "@;
            assert(m.subrange(pre.len() as int, pre.len() + path.len() as int) =~= path);
        },
        FsError::Other => {
            let pre = "failed to load file "@;
            assert(m.subrange(pre.len() as int, pre.len() + path.len() as int) =~= path);
        },
    }
}

} // verus!
