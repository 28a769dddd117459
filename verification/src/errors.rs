//! The failure taxonomy of the harness, and verified rendering of the
//! diagnostic message each failure carries. Every failure is fatal: callers
//! report the message and stop.

use vstd::prelude::*;
use vstd::utf8::{valid_utf8, decode_utf8};
use crate::text::{string_from_utf8, ascii_chars, lemma_ascii_bytes_decode, copy_bytes};

verus! {

/// Which output stream of a command an error concerns.
#[derive(Debug, Clone, Copy, PartialEq, Eq, Structural)]
pub enum StreamKind {
    Stdout,
    Stderr,
}

/// Every failure the harness can report.
#[derive(Debug)]
pub enum HarnessError {
    /// The filesystem walk failed.
    Traversal { root: String, cause: String },
    /// A case directory lies outside the scan root, or its relative path is
    /// not representable as text. The raw path bytes are kept.
    Naming { path: Vec<u8> },
    /// The filter pattern failed to compile.
    Pattern { pattern: String },
    /// The external program could not be started.
    Execution { program: String, args: Vec<String>, cause: String },
    /// The external program ran but exited with a non-zero status.
    NonZeroExit { program: String, args: Vec<String>, code: Option<i32> },
    /// Captured output bytes of the named stream are not valid text.
    Decoding { stream: StreamKind, program: String, args: Vec<String> },
    /// The stdout-only contract saw stderr output despite a zero exit status.
    UnexpectedStream { program: String, args: Vec<String>, stderr: String },
    /// The working directory could not be switched.
    DirectoryChange { path: String, cause: String },
}

/// The views of a sequence of strings.
pub open spec fn string_views(s: Seq<String>) -> Seq<Seq<char>> {
    s.map_values(|x: String| x@)
}

/// The parts joined with single spaces.
pub open spec fn joined(parts: Seq<Seq<char>>) -> Seq<char>
    decreases parts.len(),
{
    if parts.len() == 0 {
        Seq::empty()
    } else if parts.len() == 1 {
        parts[0]
    } else {
        joined(parts.drop_last()) + " "@ + parts.last()
    }
}

/// How a command is shown in diagnostics: program, a space, the arguments.
pub open spec fn command_text(program: Seq<char>, args: Seq<Seq<char>>) -> Seq<char> {
    program + " "@ + joined(args)
}

/// The decimal digits of `n`, most significant first, as ASCII bytes.
pub open spec fn dec_bytes_rec(n: nat) -> Seq<u8>
    decreases n,
{
    if n < 10 {
        seq![(48 + n) as u8]
    } else {
        dec_bytes_rec(n / 10).push((48 + n % 10) as u8)
    }
}

/// How an exit status is shown: its decimal code, or a note that no code
/// was reported.
pub open spec fn code_text(code: Option<i32>) -> Seq<char> {
    match code {
        Option::Some(c) => if c < 0 {
            "-"@ + ascii_chars(dec_bytes_rec((-(c as int)) as nat))
        } else {
            ascii_chars(dec_bytes_rec(c as nat))
        },
        Option::None => "terminated by signal"@,
    }
}

/// The full diagnostic message of an error.
pub open spec fn message_of(e: &HarnessError) -> Seq<char> {
    match e {
        HarnessError::Traversal { root, cause } => "unable to traverse root directory "@
            + root@ + ": "@ + cause@,
        HarnessError::Naming { path } => if valid_utf8(path@) {
            "invalid test case path: "@ + decode_utf8(path@)
        } else {
            "invalid test case path"@
        },
        HarnessError::Pattern { pattern } => "invalid regex filter: "@ + pattern@,
        HarnessError::Execution { program, args, cause } => "unable to execute command "@
            + command_text(program@, string_views(args@)) + ": "@ + cause@,
        HarnessError::NonZeroExit { program, args, code } => "command "@
            + command_text(program@, string_views(args@))
            + " returned a non-zero exit code: "@ + code_text(*code),
        HarnessError::Decoding { stream, program, args } => "command "@
            + command_text(program@, string_views(args@)) + " outputs non-utf8 "@
            + match stream {
                StreamKind::Stdout => "stdout"@,
                StreamKind::Stderr => "stderr"@,
            },
        HarnessError::UnexpectedStream { program, args, stderr } => "command "@
            + command_text(program@, string_views(args@))
            + " outputs stderr unexpectedly: "@ + stderr@,
        HarnessError::DirectoryChange { path, cause } => "unable to change working directory to "@
            + path@ + ": "@ + cause@,
    }
}

/// All decimal digit bytes are ASCII.
proof fn lemma_dec_bytes_ascii(n: nat)
    ensures
        forall|i: int| 0 <= i < dec_bytes_rec(n).len() ==> dec_bytes_rec(n)[i] < 0x80,
    decreases n,
{
    if n >= 10 {
        lemma_dec_bytes_ascii(n / 10);
        let p = dec_bytes_rec(n / 10);
        assert forall|i: int| 0 <= i < dec_bytes_rec(n).len() implies dec_bytes_rec(n)[i]
            < 0x80 by {
            if i < p.len() {
                assert(dec_bytes_rec(n)[i] == p[i]);
            } else {
                assert(dec_bytes_rec(n)[i] == (48 + n % 10) as u8);
            }
        }
    }
}

/// The decimal digits of `n`, most significant first.
fn dec_bytes(n: u64) -> (r: Vec<u8>)
    ensures
        r@ == dec_bytes_rec(n as nat),
    decreases n,
{
    if n < 10 {
        let mut v: Vec<u8> = Vec::new();
        v.push(48 + (n as u8));
        proof {
            assert(v@ =~= dec_bytes_rec(n as nat));
        }
        v
    } else {
        let mut v = dec_bytes(n / 10);
        v.push(48 + ((n % 10) as u8));
        v
    }
}

/// Renders an exit status as text.
fn code_string(code: &Option<i32>) -> (r: String)
    ensures
        r@ == code_text(*code),
{
    match code {
        Option::None => String::from_str("terminated by signal"),
        Option::Some(c) => {
            let wide: i64 = *c as i64;
            if wide < 0 {
                let mag: u64 = (-wide) as u64;
                let bytes = dec_bytes(mag);
                proof {
                    lemma_dec_bytes_ascii(mag as nat);
                    lemma_ascii_bytes_decode(bytes@);
                }
                match string_from_utf8(bytes) {
                    Option::Some(s) => {
                        let mut r = String::from_str("-");
                        r.append(s.as_str());
                        r
                    },
                    Option::None => {
                        proof {
                            assert(false);
                        }
                        String::new()
                    },
                }
            } else {
                let mag: u64 = wide as u64;
                let bytes = dec_bytes(mag);
                proof {
                    lemma_dec_bytes_ascii(mag as nat);
                    lemma_ascii_bytes_decode(bytes@);
                }
                match string_from_utf8(bytes) {
                    Option::Some(s) => s,
                    Option::None => {
                        proof {
                            assert(false);
                        }
                        String::new()
                    },
                }
            }
        },
    }
}

/// Joins strings with single spaces.
pub fn join_spaced(parts: &Vec<String>) -> (r: String)
    ensures
        r@ == joined(string_views(parts@)),
{
    let mut r = String::new();
    let mut i: usize = 0;
    while i < parts.len()
        invariant
            i <= parts@.len(),
            r@ == joined(string_views(parts@).take(i as int)),
        decreases parts@.len() - i,
    {
        if i > 0 {
            r.append(" ");
        }
        r.append(parts[i].as_str());
        proof {
            let sv = string_views(parts@);
            assert(sv.take(i as int + 1).drop_last() =~= sv.take(i as int));
            assert(sv.take(i as int + 1).last() == parts@[i as int]@);
        }
        i = i + 1;
    }
    proof {
        assert(string_views(parts@).take(parts@.len() as int) =~= string_views(parts@));
    }
    r
}

/// Renders a command as program followed by its space-joined arguments.
fn command_string(program: &String, args: &Vec<String>) -> (r: String)
    ensures
        r@ == command_text(program@, string_views(args@)),
{
    let mut r = program.clone();
    r.append(" ");
    let j = join_spaced(args);
    r.append(j.as_str());
    proof {
        assert(r@ =~= command_text(program@, string_views(args@)));
    }
    r
}

impl HarnessError {
    /// The human-readable diagnostic message of this error.
    pub fn describe(&self) -> (r: String)
        ensures
            r@ == message_of(self),
    {
        match self {
            HarnessError::Traversal { root, cause } => {
                let mut r = String::from_str("unable to traverse root directory ");
                r.append(root.as_str());
                r.append(": ");
                r.append(cause.as_str());
                proof {
                    assert(r@ =~= message_of(self));
                }
                r
            },
            HarnessError::Naming { path } => {
                match string_from_utf8(copy_bytes(path)) {
                    Option::Some(s) => {
                        let mut r = String::from_str("invalid test case path: ");
                        r.append(s.as_str());
                        proof {
                            assert(r@ =~= message_of(self));
                        }
                        r
                    },
                    Option::None => String::from_str("invalid test case path"),
                }
            },
            HarnessError::Pattern { pattern } => {
                let mut r = String::from_str("invalid regex filter: ");
                r.append(pattern.as_str());
                proof {
                    assert(r@ =~= message_of(self));
                }
                r
            },
            HarnessError::Execution { program, args, cause } => {
                let mut r = String::from_str("unable to execute command ");
                let c = command_string(program, args);
                r.append(c.as_str());
                r.append(": ");
                r.append(cause.as_str());
                proof {
                    assert(r@ =~= message_of(self));
                }
                r
            },
            HarnessError::NonZeroExit { program, args, code } => {
                let mut r = String::from_str("command ");
                let c = command_string(program, args);
                r.append(c.as_str());
                r.append(" returned a non-zero exit code: ");
                let t = code_string(code);
                r.append(t.as_str());
                proof {
                    assert(r@ =~= message_of(self));
                }
                r
            },
            HarnessError::Decoding { stream, program, args } => {
                let mut r = String::from_str("command ");
                let c = command_string(program, args);
                r.append(c.as_str());
                r.append(" outputs non-utf8 ");
                match stream {
                    StreamKind::Stdout => r.append("stdout"),
                    StreamKind::Stderr => r.append("stderr"),
                }
                proof {
                    assert(r@ =~= message_of(self));
                }
                r
            },
            HarnessError::UnexpectedStream { program, args, stderr } => {
                let mut r = String::from_str("command ");
                let c = command_string(program, args);
                r.append(c.as_str());
                r.append(" outputs stderr unexpectedly: ");
                r.append(stderr.as_str());
                proof {
                    assert(r@ =~= message_of(self));
                }
                r
            },
            HarnessError::DirectoryChange { path, cause } => {
                let mut r = String::from_str("unable to change working directory to ");
                r.append(path.as_str());
                r.append(": ");
                r.append(cause.as_str());
                proof {
                    assert(r@ =~= message_of(self));
                }
                r
            },
        }
    }
}

} // verus!
