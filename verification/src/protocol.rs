//! The generator protocol: interpreting what came back from an external
//! generator process.  The process exchange itself is synchronous and
//! blocking, with no timeout and no retry; only the interpretation of its
//! result is decided here.

use vstd::prelude::*;

use crate::codec::spec_decode_output;
use crate::wire::{Output, SpecOutput};

verus! {

/// A fatal outcome of one generator invocation.
#[derive(Debug, PartialEq)]
pub enum RunError {
    /// The process exited non-zero: fatal for the whole run, whatever it
    /// printed; its captured standard output is attached for diagnosis.
    ProcessFailure { stdout: String },
    /// The process exited zero but its output does not parse as an
    /// `Output` document: a protocol violation, also fatal.
    ProtocolError { stdout: String },
}

/// Mathematical model of a `RunError`.
#[verifier::ext_equal]
pub enum SpecRunError {
    ProcessFailure { stdout: Seq<char> },
    ProtocolError { stdout: Seq<char> },
}

impl DeepView for RunError {
    type V = SpecRunError;

    open spec fn deep_view(&self) -> SpecRunError {
        match self {
            RunError::ProcessFailure { stdout } => SpecRunError::ProcessFailure {
                stdout: stdout@,
            },
            RunError::ProtocolError { stdout } => SpecRunError::ProtocolError {
                stdout: stdout@,
            },
        }
    }
}

impl View for RunError {
    type V = SpecRunError;

    open spec fn view(&self) -> SpecRunError {
        self.deep_view()
    }
}

/// The interpretation of a finished generator process: a non-zero exit is
/// a process failure whatever was printed; unparseable output after a zero
/// exit is a protocol violation; anything else is the parsed document.
pub open spec fn spec_interpret(success: bool, stdout: Seq<char>) -> Result<
    SpecOutput,
    SpecRunError,
> {
    if !success {
        Err(SpecRunError::ProcessFailure { stdout })
    } else {
        match spec_decode_output(stdout) {
            Some(o) => Ok(o),
            None => Err(SpecRunError::ProtocolError { stdout }),
        }
    }
}

/// Interprets a finished generator process from its exit status and its
/// whole captured standard output.  A non-zero exit is fatal regardless of
/// output content, even a well-formed document; diagnostics inside a
/// parsed document are not fatal and stay in the document for the caller;
/// only a parsed document carries files to act on.
pub fn interpret_generator_response(success: bool, stdout: String) -> (r: Result<
    Output,
    RunError,
>)
    ensures
        (match r {
            Ok(o) => spec_interpret(success, stdout@) == Ok::<SpecOutput, SpecRunError>(o@),
            Err(e) => spec_interpret(success, stdout@) == Err::<SpecOutput, SpecRunError>(e@),
        }),
{
    if !success {
        return Err(RunError::ProcessFailure { stdout });
    }
    match crate::codec::decode_output(stdout.as_str()) {
        Ok(o) => Ok(o),
        Err(()) => Err(RunError::ProtocolError { stdout }),
    }
}

/// The write summary of a parsed document: each file's relative path with
/// the byte length of its contents.
pub open spec fn spec_output_summary(o: SpecOutput) -> Seq<(Seq<char>, int)> {
    Seq::new(
        o.files.len(),
        |i: int| (
            o.files[i].path,
            (vstd::utf8::encode_utf8(o.files[i].source).len() as usize) as int,
        ),
    )
}

/// Summarizes a parsed document: each file's relative path and the byte
/// length of its contents, in order.
#[verifier::loop_isolation(false)]
pub fn output_summary(o: &Output) -> (r: Vec<(String, usize)>)
    ensures
        r@.len() == o.files@.len(),
        forall|i: int|
            0 <= i < r@.len() ==> (#[trigger] r@[i]).0@ == o@.files[i].path && r@[i].1 as int
                == spec_output_summary(o@)[i].1,
{
    let n: usize = o.files.len();
    let mut out: Vec<(String, usize)> = Vec::new();
    let mut i: usize = 0;
    while i < n
        invariant
            0 <= i <= n,
            out@.len() == i,
            forall|k: int|
                0 <= k < i ==> (#[trigger] out@[k]).0@ == o@.files[k].path && out@[k].1 as int
                    == spec_output_summary(o@)[k].1,
        decreases n - i,
    {
        let path = o.files[i].path.clone();
        let ghost pathv = path@;
        let len = o.files[i].source.as_str().len();
        out.push((path, len));
        proof {
            assert((out@[i as int]).0@ == pathv);
            assert(pathv == o@.files[i as int].path);
            assert(len == vstd::utf8::encode_utf8(o@.files[i as int].source).len() as usize);
            assert(out@[i as int].1 as int == spec_output_summary(o@)[i as int].1);
        }
        i = i + 1;
    }
    out
}

} // verus!
