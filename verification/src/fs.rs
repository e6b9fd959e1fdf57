//! Annotated filesystem access.
//!
//! Each platform primitive the build helper needs (canonicalize, copy,
//! create-directory, current directory, read, remove, write, symlink)
//! gets one function here. The function takes the outcome of the
//! underlying platform call as a value: a success is passed through
//! unchanged, and a failure is wrapped in an [`Error`] that keeps the
//! platform cause and carries a message, fully formatted at construction
//! time, naming the operation and every path argument.

use vstd::prelude::*;

verus! {

/// The platform's I/O error type, opaque to verification. Values of it
/// are only stored and handed back as the root cause of a failure;
/// nothing is assumed about their contents.
#[verifier::external_type_specification]
#[verifier::external_body]
pub struct ExIoError(std::io::Error);

/// An annotated failure of a filesystem primitive: the original platform
/// cause together with a human-readable message that names the attempted
/// operation and the path(s) involved. The message is fully formatted
/// when the value is constructed, never rebuilt from the cause.
#[derive(Debug)]
pub struct Error {
    source: std::io::Error,
    message: String,
}

impl Error {
    /// The underlying platform cause, as an abstract value.
    pub closed spec fn source_spec(&self) -> std::io::Error {
        self.source
    }

    /// The characters of the precomputed message.
    pub closed spec fn message_spec(&self) -> Seq<char> {
        self.message@
    }

    /// The root cause of the failure, preserved and queryable
    /// independently of the formatted message.
    pub fn source(&self) -> (cause: &std::io::Error)
        ensures
            *cause == self.source_spec(),
    {
        &self.source
    }

    /// The precomputed, operation- and path-specific message.
    pub fn message(&self) -> (message: &str)
        ensures
            message@ == self.message_spec(),
    {
        self.message.as_str()
    }
}

/// The message announcing a failed canonicalization of `path`.
pub open spec fn canonicalize_message(path: Seq<char>) -> Seq<char> {
    "Unable to canonicalize path: `"@ + path + "`"@
}

/// The message announcing a failed copy from `from` to `to`.
pub open spec fn copy_message(from: Seq<char>, to: Seq<char>) -> Seq<char> {
    "Failed to copy `"@ + from + "` -> `"@ + to + "`"@
}

/// The message announcing a failed directory creation at `path`.
pub open spec fn create_dir_all_message(path: Seq<char>) -> Seq<char> {
    "Failed to create directory `"@ + path + "`"@
}

/// The message announcing a failure to determine the working directory.
pub open spec fn current_dir_message() -> Seq<char> {
    "Failed to determine current directory"@
}

/// The message announcing a failed read of the file at `path`.
pub open spec fn read_message(path: Seq<char>) -> Seq<char> {
    "Failed to read file `"@ + path + "`"@
}

/// The message announcing a failed removal of the file at `path`.
pub open spec fn remove_file_message(path: Seq<char>) -> Seq<char> {
    "Failed to remove file `"@ + path + "`"@
}

/// The message announcing a failed creation of a symlink at `dst`
/// pointing to `src`.
pub open spec fn symlink_message(src: Seq<char>, dst: Seq<char>) -> Seq<char> {
    "Failed to create symlink `"@ + dst + "` pointing to `"@ + src + "`"@
}

/// The message announcing a failed write of the file at `path`.
pub open spec fn write_message(path: Seq<char>) -> Seq<char> {
    "Failed to write file `"@ + path + "`"@
}

/// True when `part` occurs contiguously somewhere in `text`.
pub open spec fn contains_seq(text: Seq<char>, part: Seq<char>) -> bool {
    exists|i: int|
        #![trigger text.subrange(i, i + part.len())]
        0 <= i && i + part.len() <= text.len() && text.subrange(i, i + part.len()) == part
}

/// Every failed canonicalization message names the operation and
/// renders the path it was given.
pub proof fn lemma_canonicalize_message_names(path: Seq<char>)
    ensures
        contains_seq(canonicalize_message(path), "canonicalize"@),
        contains_seq(canonicalize_message(path), path),
{
    reveal_strlit("Unable to canonicalize path: `");
    reveal_strlit("canonicalize");
    let msg = canonicalize_message(path);
    let w = "canonicalize"@;
    assert(msg.subrange(10, 10 + w.len() as int) =~= w);
    assert(msg.subrange(30, 30 + path.len() as int) =~= path);
}

/// Every failed copy message names the operation and renders both the
/// source and the destination path.
pub proof fn lemma_copy_message_names(from: Seq<char>, to: Seq<char>)
    ensures
        contains_seq(copy_message(from, to), "copy"@),
        contains_seq(copy_message(from, to), from),
        contains_seq(copy_message(from, to), to),
{
    reveal_strlit("Failed to copy `");
    reveal_strlit("` -> `");
    reveal_strlit("copy");
    let msg = copy_message(from, to);
    let w = "copy"@;
    assert(msg.subrange(10, 10 + w.len() as int) =~= w);
    assert(msg.subrange(16, 16 + from.len() as int) =~= from);
    let at: int = 16 + from.len() as int + 6;
    assert(msg.subrange(at, at + to.len() as int) =~= to);
}

/// Every failed directory-creation message names the operation and
/// renders the path it was given.
pub proof fn lemma_create_dir_all_message_names(path: Seq<char>)
    ensures
        contains_seq(create_dir_all_message(path), "create"@),
        contains_seq(create_dir_all_message(path), path),
{
    reveal_strlit("Failed to create directory `");
    reveal_strlit("create");
    let msg = create_dir_all_message(path);
    let w = "create"@;
    assert(msg.subrange(10, 10 + w.len() as int) =~= w);
    assert(msg.subrange(28, 28 + path.len() as int) =~= path);
}

/// Every failed read message names the operation and renders the path
/// it was given.
pub proof fn lemma_read_message_names(path: Seq<char>)
    ensures
        contains_seq(read_message(path), "read"@),
        contains_seq(read_message(path), path),
{
    reveal_strlit("Failed to read file `");
    reveal_strlit("read");
    let msg = read_message(path);
    let w = "read"@;
    assert(msg.subrange(10, 10 + w.len() as int) =~= w);
    assert(msg.subrange(21, 21 + path.len() as int) =~= path);
}

/// Every failed removal message names the operation and renders the
/// path it was given.
pub proof fn lemma_remove_file_message_names(path: Seq<char>)
    ensures
        contains_seq(remove_file_message(path), "remove"@),
        contains_seq(remove_file_message(path), path),
{
    reveal_strlit("Failed to remove file `");
    reveal_strlit("remove");
    let msg = remove_file_message(path);
    let w = "remove"@;
    assert(msg.subrange(10, 10 + w.len() as int) =~= w);
    assert(msg.subrange(23, 23 + path.len() as int) =~= path);
}

/// Every failed symlink message names the operation and renders both
/// the link path and the target path.
pub proof fn lemma_symlink_message_names(src: Seq<char>, dst: Seq<char>)
    ensures
        contains_seq(symlink_message(src, dst), "symlink"@),
        contains_seq(symlink_message(src, dst), src),
        contains_seq(symlink_message(src, dst), dst),
{
    reveal_strlit("Failed to create symlink `");
    reveal_strlit("` pointing to `");
    reveal_strlit("symlink");
    let msg = symlink_message(src, dst);
    let w = "symlink"@;
    assert(msg.subrange(17, 17 + w.len() as int) =~= w);
    assert(msg.subrange(26, 26 + dst.len() as int) =~= dst);
    let at: int = 26 + dst.len() as int + 15;
    assert(msg.subrange(at, at + src.len() as int) =~= src);
}

/// Every failed write message names the operation and renders the path
/// it was given.
pub proof fn lemma_write_message_names(path: Seq<char>)
    ensures
        contains_seq(write_message(path), "write"@),
        contains_seq(write_message(path), path),
{
    reveal_strlit("Failed to write file `");
    reveal_strlit("write");
    let msg = write_message(path);
    let w = "write"@;
    assert(msg.subrange(10, 10 + w.len() as int) =~= w);
    assert(msg.subrange(22, 22 + path.len() as int) =~= path);
}

/// Builds `prefix`, `path`, `suffix` into one message string.
fn one_path_message(prefix: &str, path: &str, suffix: &str) -> (message: String)
    ensures
        message@ == prefix@ + path@ + suffix@,
{
    let mut message = String::new();
    message.append(prefix);
    message.append(path);
    message.append(suffix);
    proof {
        assert(message@ =~= prefix@ + path@ + suffix@);
    }
    message
}

/// Builds `prefix`, `first`, `mid`, `second`, `suffix` into one message
/// string.
fn two_path_message(prefix: &str, first: &str, mid: &str, second: &str, suffix: &str) -> (message:
    String)
    ensures
        message@ == prefix@ + first@ + mid@ + second@ + suffix@,
{
    let mut message = String::new();
    message.append(prefix);
    message.append(first);
    message.append(mid);
    message.append(second);
    message.append(suffix);
    proof {
        assert(message@ =~= prefix@ + first@ + mid@ + second@ + suffix@);
    }
    message
}

/// Annotates the outcome of the platform's path-canonicalization
/// primitive: a resolved path is passed through, a failure is wrapped
/// with a message naming the path that could not be canonicalized.
pub fn canonicalize<T>(path: &str, outcome: Result<T, std::io::Error>) -> (r: Result<T, Error>)
    ensures
        (outcome matches Ok(resolved) ==> r matches Ok(v) && v == resolved),
        (outcome matches Err(cause) ==> r matches Err(err) && err.source_spec() == cause
            && err.message_spec() == canonicalize_message(path@)),
{
    match outcome {
        Ok(resolved) => Ok(resolved),
        Err(cause) => Err(
            Error {
                source: cause,
                message: one_path_message("Unable to canonicalize path: `", path, "`"),
            },
        ),
    }
}

/// Annotates the outcome of the platform's file-copy primitive: the
/// count of copied bytes is passed through, a failure is wrapped with a
/// message naming both paths.
pub fn copy(from: &str, to: &str, outcome: Result<u64, std::io::Error>) -> (r: Result<u64, Error>)
    ensures
        (outcome matches Ok(bytes) ==> r matches Ok(n) && n == bytes),
        (outcome matches Err(cause) ==> r matches Err(err) && err.source_spec() == cause
            && err.message_spec() == copy_message(from@, to@)),
{
    match outcome {
        Ok(bytes) => Ok(bytes),
        Err(cause) => Err(
            Error {
                source: cause,
                message: two_path_message("Failed to copy `", from, "` -> `", to, "`"),
            },
        ),
    }
}

/// Annotates the outcome of the platform's recursive directory-creation
/// primitive.
pub fn create_dir_all(path: &str, outcome: Result<(), std::io::Error>) -> (r: Result<(), Error>)
    ensures
        (outcome matches Ok(done) ==> r matches Ok(v) && v == done),
        (outcome matches Err(cause) ==> r matches Err(err) && err.source_spec() == cause
            && err.message_spec() == create_dir_all_message(path@)),
{
    match outcome {
        Ok(()) => Ok(()),
        Err(cause) => Err(
            Error {
                source: cause,
                message: one_path_message("Failed to create directory `", path, "`"),
            },
        ),
    }
}

/// Annotates the outcome of the platform's working-directory query; no
/// path argument exists, so the message is fixed.
pub fn current_dir<T>(outcome: Result<T, std::io::Error>) -> (r: Result<T, Error>)
    ensures
        (outcome matches Ok(dir) ==> r matches Ok(v) && v == dir),
        (outcome matches Err(cause) ==> r matches Err(err) && err.source_spec() == cause
            && err.message_spec() == current_dir_message()),
{
    match outcome {
        Ok(dir) => Ok(dir),
        Err(cause) => {
            let message = one_path_message("Failed to determine current directory", "", "");
            proof {
                reveal_strlit("");
                assert(message@ =~= current_dir_message());
            }
            Err(Error { source: cause, message })
        },
    }
}

/// Annotates the outcome of the platform's whole-file read primitive:
/// the bytes read are passed through unchanged.
pub fn read(path: &str, outcome: Result<Vec<u8>, std::io::Error>) -> (r: Result<Vec<u8>, Error>)
    ensures
        (outcome matches Ok(contents) ==> r matches Ok(v) && v == contents),
        (outcome matches Err(cause) ==> r matches Err(err) && err.source_spec() == cause
            && err.message_spec() == read_message(path@)),
{
    match outcome {
        Ok(contents) => Ok(contents),
        Err(cause) => Err(
            Error { source: cause, message: one_path_message("Failed to read file `", path, "`") },
        ),
    }
}

/// Annotates the outcome of the platform's file-removal primitive.
pub fn remove_file(path: &str, outcome: Result<(), std::io::Error>) -> (r: Result<(), Error>)
    ensures
        (outcome matches Ok(done) ==> r matches Ok(v) && v == done),
        (outcome matches Err(cause) ==> r matches Err(err) && err.source_spec() == cause
            && err.message_spec() == remove_file_message(path@)),
{
    match outcome {
        Ok(()) => Ok(()),
        Err(cause) => Err(
            Error {
                source: cause,
                message: one_path_message("Failed to remove file `", path, "`"),
            },
        ),
    }
}

/// Annotates the outcome of whichever symlink primitive the platform
/// offers: the message names the link `dst` and its target `src`.
pub fn symlink(src: &str, dst: &str, outcome: Result<(), std::io::Error>) -> (r: Result<(), Error>)
    ensures
        (outcome matches Ok(done) ==> r matches Ok(v) && v == done),
        (outcome matches Err(cause) ==> r matches Err(err) && err.source_spec() == cause
            && err.message_spec() == symlink_message(src@, dst@)),
{
    match outcome {
        Ok(()) => Ok(()),
        Err(cause) => Err(
            Error {
                source: cause,
                message: two_path_message(
                    "Failed to create symlink `",
                    dst,
                    "` pointing to `",
                    src,
                    "`",
                ),
            },
        ),
    }
}

/// Annotates a file-symlink outcome. On platforms with a single symlink
/// primitive this and [`symlink_dir`] are the same operation; the
/// caller-facing contract does not distinguish them.
pub fn symlink_file(src: &str, dst: &str, outcome: Result<(), std::io::Error>) -> (r: Result<
    (),
    Error,
>)
    ensures
        (outcome matches Ok(done) ==> r matches Ok(v) && v == done),
        (outcome matches Err(cause) ==> r matches Err(err) && err.source_spec() == cause
            && err.message_spec() == symlink_message(src@, dst@)),
{
    symlink(src, dst, outcome)
}

/// Annotates a directory-symlink outcome; see [`symlink_file`].
pub fn symlink_dir(src: &str, dst: &str, outcome: Result<(), std::io::Error>) -> (r: Result<
    (),
    Error,
>)
    ensures
        (outcome matches Ok(done) ==> r matches Ok(v) && v == done),
        (outcome matches Err(cause) ==> r matches Err(err) && err.source_spec() == cause
            && err.message_spec() == symlink_message(src@, dst@)),
{
    symlink(src, dst, outcome)
}

/// Annotates the outcome of the platform's whole-file write primitive.
pub fn write(path: &str, outcome: Result<(), std::io::Error>) -> (r: Result<(), Error>)
    ensures
        (outcome matches Ok(done) ==> r matches Ok(v) && v == done),
        (outcome matches Err(cause) ==> r matches Err(err) && err.source_spec() == cause
            && err.message_spec() == write_message(path@)),
{
    match outcome {
        Ok(()) => Ok(()),
        Err(cause) => Err(
            Error { source: cause, message: one_path_message("Failed to write file `", path, "`") },
        ),
    }
}

} // verus!
