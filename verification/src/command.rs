//! Strict interpretation of an external command's outcome: a zero exit
//! status is enforced, output bytes are decoded as text per stream, and the
//! stdout-only contract rejects any stderr noise even on success.
//!
//! Spawning the process is I/O and lives outside this library; it hands in
//! a `RawOutput` with the exit status and the captured bytes.

use vstd::prelude::*;
use vstd::utf8::{valid_utf8, decode_utf8};
use crate::text::{string_from_utf8, trim_end_string, trim_end_of};
use crate::errors::{HarnessError, StreamKind};

verus! {

/// The raw outcome of one external command execution: whether the exit
/// status was zero, the exit code if one was reported, and the captured
/// bytes of both output streams.
pub struct RawOutput {
    pub success: bool,
    pub code: Option<i32>,
    pub stdout: Vec<u8>,
    pub stderr: Vec<u8>,
}

/// What a captured stream decodes to: absent when empty, otherwise the
/// trailing-whitespace-trimmed text.
pub open spec fn stream_value(bytes: Seq<u8>) -> Option<Seq<char>> {
    if bytes.len() == 0 {
        Option::None
    } else {
        Option::Some(trim_end_of(decode_utf8(bytes)))
    }
}

/// A captured stream decodes when it is empty or valid UTF-8.
pub open spec fn stream_decodes(bytes: Seq<u8>) -> bool {
    bytes.len() == 0 || valid_utf8(bytes)
}

/// The text of an optional string.
pub open spec fn opt_text(o: Option<String>) -> Option<Seq<char>> {
    match o {
        Option::None => Option::None,
        Option::Some(s) => Option::Some(s@),
    }
}

/// Decodes one captured stream: an empty stream is absent, valid UTF-8 is
/// trimmed text, anything else fails.
fn decode_stream(bytes: Vec<u8>) -> (r: Result<Option<String>, ()>)
    ensures
        r is Ok <==> stream_decodes(bytes@),
        r matches Ok(o) ==> opt_text(o) == stream_value(bytes@),
{
    if bytes.len() == 0 {
        Ok(None)
    } else {
        match string_from_utf8(bytes) {
            Option::Some(s) => Ok(Some(trim_end_string(s.as_str()))),
            Option::None => Err(()),
        }
    }
}

/// Copies a vector of strings.
fn clone_strings(v: &Vec<String>) -> (r: Vec<String>)
    ensures
        r@ == v@,
{
    let mut r: Vec<String> = Vec::new();
    let mut i: usize = 0;
    while i < v.len()
        invariant
            i <= v@.len(),
            r@ == v@.take(i as int),
        decreases v@.len() - i,
    {
        r.push(v[i].clone());
        proof {
            assert(v@.take(i as int + 1) =~= v@.take(i as int).push(v@[i as int]));
        }
        i = i + 1;
    }
    proof {
        assert(v@.take(v@.len() as int) =~= v@);
    }
    r
}

/// Interprets the outcome of one command run: a non-zero exit status is a
/// failure naming the exact code; on success both streams are decoded
/// independently, an empty stream being absent rather than an empty string.
pub fn interpret_output(program: String, args: Vec<String>, raw: RawOutput) -> (r: Result<
    (Option<String>, Option<String>),
    HarnessError,
>)
    ensures
        !raw.success ==> (r matches Err(e) && (e matches HarnessError::NonZeroExit {
            program: ep,
            args: ea,
            code,
        } && ep@ == program@ && ea@ == args@ && code == raw.code)),
        raw.success && !stream_decodes(raw.stdout@) ==> (r matches Err(e) && (e matches
            HarnessError::Decoding { stream, program: ep, args: ea } && stream is Stdout && ep@
            == program@ && ea@ == args@)),
        raw.success && stream_decodes(raw.stdout@) && !stream_decodes(raw.stderr@) ==> (r matches
            Err(e) && (e matches HarnessError::Decoding { stream, program: ep, args: ea }
            && stream is Stderr && ep@ == program@ && ea@ == args@)),
        raw.success && stream_decodes(raw.stdout@) && stream_decodes(raw.stderr@) ==> (r matches
            Ok(v) && opt_text(v.0) == stream_value(raw.stdout@) && opt_text(v.1) == stream_value(
            raw.stderr@,
        )),
{
    let RawOutput { success, code, stdout, stderr } = raw;
    if !success {
        return Err(HarnessError::NonZeroExit { program, args, code });
    }
    let out = match decode_stream(stdout) {
        Result::Ok(o) => o,
        Result::Err(_) => {
            return Err(
                HarnessError::Decoding { stream: StreamKind::Stdout, program, args },
            );
        },
    };
    let err = match decode_stream(stderr) {
        Result::Ok(o) => o,
        Result::Err(_) => {
            return Err(
                HarnessError::Decoding { stream: StreamKind::Stderr, program, args },
            );
        },
    };
    Ok((out, err))
}

/// Interprets a command outcome under the stdout-only contract: any captured
/// stderr text is a failure even though the exit status was zero, and an
/// absent stdout yields the empty string.
pub fn expect_stdout_only(program: String, args: Vec<String>, raw: RawOutput) -> (r: Result<
    String,
    HarnessError,
>)
    ensures
        !raw.success ==> (r matches Err(e) && (e matches HarnessError::NonZeroExit {
            program: ep,
            args: ea,
            code,
        } && ep@ == program@ && ea@ == args@ && code == raw.code)),
        raw.success && !stream_decodes(raw.stdout@) ==> (r matches Err(e) && (e matches
            HarnessError::Decoding { stream, program: ep, args: ea } && stream is Stdout && ep@
            == program@ && ea@ == args@)),
        raw.success && stream_decodes(raw.stdout@) && !stream_decodes(raw.stderr@) ==> (r matches
            Err(e) && (e matches HarnessError::Decoding { stream, program: ep, args: ea }
            && stream is Stderr && ep@ == program@ && ea@ == args@)),
        raw.success && stream_decodes(raw.stdout@) && stream_decodes(raw.stderr@)
            && raw.stderr@.len() > 0 ==> (r matches Err(e) && (e matches
            HarnessError::UnexpectedStream { program: ep, args: ea, stderr: es } && ep@ == program@
            && ea@ == args@ && es@ == trim_end_of(decode_utf8(raw.stderr@)))),
        raw.success && stream_decodes(raw.stdout@) && raw.stderr@.len() == 0 ==> (r matches Ok(s)
            && s@ == (if raw.stdout@.len() == 0 {
            Seq::<char>::empty()
        } else {
            trim_end_of(decode_utf8(raw.stdout@))
        })),
{
    let program_copy = program.clone();
    let args_copy = clone_strings(&args);
    match interpret_output(program_copy, args_copy, raw) {
        Result::Err(e) => Err(e),
        Result::Ok((out, err)) => match err {
            Option::Some(es) => Err(
                HarnessError::UnexpectedStream { program, args, stderr: es },
            ),
            Option::None => match out {
                Option::Some(s) => Ok(s),
                Option::None => Ok(String::new()),
            },
        },
    }
}

} // verus!
