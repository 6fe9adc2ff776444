//! The lock file of a path, and the wait for it.
//!
//! The lock of a target is held on a file of its own whose name is a digest of the canonical
//! path of the target, so the lock stays the same however often the target is replaced.

use crate::paths::{file_name, join_path, joined_path, path_file_name};
use crate::text::owned;
use vstd::prelude::*;
use vstd::utf8::encode_utf8;

verus! {

/// How long a contended lock is waited for, in seconds.
pub const DEFAULT_TIMEOUT_SECS: u64 = 30;

/// The pause between two attempts, in milliseconds.
pub const RETRY_INTERVAL_MS: u64 = 10;

/// The SHA-256 digest of a byte sequence.
pub uninterp spec fn sha256_digest(bytes: Seq<u8>) -> Seq<u8>;

/// `<sha2::Sha256 as sha2::Digest>::digest`: 32 bytes that depend on the input alone.
#[verifier::external_body]
fn sha256(bytes: &[u8]) -> (r: Vec<u8>)
    ensures
        r@ == sha256_digest(bytes@),
        r@.len() == 32,
{
    <sha2::Sha256 as sha2::Digest>::digest(bytes).to_vec()
}

/// The hexadecimal digit of a number below sixteen, in lower case.
pub open spec fn hex_digit(n: int) -> char {
    if n < 10 {
        (48 + n) as char
    } else {
        (87 + n) as char
    }
}

/// Two hexadecimal digits for each byte, the higher one first.
pub open spec fn hex_text(bytes: Seq<u8>) -> Seq<char> {
    Seq::new(
        2 * bytes.len(),
        |i: int|
            if i % 2 == 0 {
                hex_digit(bytes[i / 2] as int / 16)
            } else {
                hex_digit(bytes[i / 2] as int % 16)
            },
    )
}

/// `hex::encode`: two lower-case hexadecimal digits for each byte.
#[verifier::external_body]
fn hex_encode(bytes: &Vec<u8>) -> (r: String)
    ensures
        r@ == hex_text(bytes@),
{
    hex::encode(bytes)
}

/// The lock file of a canonical path, under a directory for temporary files.
pub open spec fn lock_path(temp_dir: Seq<char>, canonical: Seq<char>) -> Seq<char> {
    joined_path(
        joined_path(temp_dir, "theway-file-locks"@),
        hex_text(sha256_digest(encode_utf8(canonical))) + ".lock"@,
    )
}

/// The lock file of a canonical path, under a directory for temporary files.
pub fn lock_file_path(temp_dir: &str, canonical: &str) -> (r: String)
    ensures
        r@ == lock_path(temp_dir@, canonical@),
{
    let mut name = hex_encode(&sha256(canonical.as_bytes()));
    name.push_str(".lock");
    join_path(join_path(temp_dir, "theway-file-locks").as_str(), name.as_str())
}

/// The canonical path of a target that does not exist yet, from that of its directory.
pub fn missing_target(parent: &str, path: &str) -> (r: Result<String, String>)
    ensures
        match file_name(path@) {
            Some(name) => r matches Ok(target) && target@ == joined_path(parent@, name),
            None => r matches Err(e) && e@ == "path has no file name: "@ + path@,
        },
{
    match path_file_name(path) {
        Some(name) => Ok(join_path(parent, name.as_str())),
        None => {
            let mut e = owned("path has no file name: ");
            e.push_str(path);
            Err(e)
        },
    }
}

/// What to do after an attempt to take a lock.
#[derive(Debug)]
pub enum LockStep {
    Acquired,
    /// Pause, then try again.
    Wait,
    /// Give up with a message.
    TimedOut(String),
    Failed(String),
}

/// The message of a wait that took too long.
pub open spec fn lock_timeout_text(timeout: Seq<char>, path: Seq<char>) -> Seq<char> {
    "timed out after "@ + timeout + " waiting for the file lock on "@ + path
        + " (another agent editing the same file?)"@
}

/// What to do after an attempt to take a lock: it was taken, it is held elsewhere, or the
/// attempt failed. `expired` says whether the deadline has passed; `timeout` is the time that
/// was allowed, as text.
pub fn after_attempt(attempt: &Result<bool, String>, expired: bool, timeout: &str, path: &str) -> (r:
    LockStep)
    ensures
        match attempt {
            Ok(true) => r is Acquired,
            Ok(false) => if expired {
                r matches LockStep::TimedOut(m) && m@ == lock_timeout_text(timeout@, path@)
            } else {
                r is Wait
            },
            Err(e) => r matches LockStep::Failed(m) && m@ == e@,
        },
{
    match attempt {
        Ok(true) => LockStep::Acquired,
        Ok(false) => if expired {
            let mut m = owned("timed out after ");
            m.push_str(timeout);
            m.push_str(" waiting for the file lock on ");
            m.push_str(path);
            m.push_str(" (another agent editing the same file?)");
            LockStep::TimedOut(m)
        } else {
            LockStep::Wait
        },
        Err(e) => LockStep::Failed(e.clone()),
    }
}

} // verus!
