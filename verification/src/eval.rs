//! The two evaluations by which `nix` imports a flake: the first finds the
//! flake's path in the store, the second imports that path. This module
//! decides what is run and what its outcome means; running it is the
//! caller's part.

use crate::json::error_message;
use crate::json::json_string;
use crate::json::json_string_list;
use crate::json::parse_string;
use crate::json::parse_string_list;
use crate::strings::names_view;
use vstd::prelude::*;
use vstd::string::StringExecFns;

verus! {

/// Which of the two evaluations.
#[derive(Clone, Copy, Debug, PartialEq, Eq, Structural)]
pub enum EvalStep {
    /// Finding the flake's path.
    ResolvePath,
    /// Importing what lies at the path.
    Import,
}

/// `nix` could not be run, or ran and failed.
#[derive(Debug, PartialEq, Eq)]
pub enum ProcessInvocationError {
    /// The process could not be started or waited for.
    SpawnFailed { message: String },
    /// The process ended unsuccessfully; `stderr` is what it wrote there,
    /// where that could be read.
    Failed { exit_code: Option<i32>, stderr: Option<String> },
}

/// `nix` printed something that is not the JSON asked for.
#[derive(Debug, PartialEq, Eq)]
pub struct DecodeError {
    /// What the decoder said.
    pub message: String,
}

/// What went wrong in an evaluation.
#[derive(Debug, PartialEq, Eq)]
pub enum EvalFailure {
    Process(ProcessInvocationError),
    Decode(DecodeError),
}

/// A failed evaluation: which one, of which expression, and how.
#[derive(Debug, PartialEq, Eq)]
pub struct EvalError {
    pub step: EvalStep,
    pub expr: String,
    pub failure: EvalFailure,
}

/// What an import waits for.
#[derive(Debug, PartialEq, Eq)]
pub enum ImportState {
    /// The outcome of the first evaluation, of `expr`.
    ResolvingPath { expr: String },
    /// The outcome of the second evaluation, of `expr`.
    Importing { expr: String },
}

/// What comes next: `nix` is to be run with `args` and its outcome handed
/// back together with `state`, or the work is done.
#[derive(Debug, PartialEq, Eq)]
pub enum Step<T> {
    Run { args: Vec<String>, state: ImportState },
    Done(Result<T, EvalError>),
}

impl<T> Step<T> {
    /// This step asks for the evaluation `step` of the expression `expr`:
    /// `nix` is to be run with the arguments of that evaluation, and the
    /// state that goes with them awaits its outcome.
    pub open spec fn asks_for(self, step: EvalStep, expr: Seq<char>) -> bool {
        match self {
            Step::Run { args, state } => names_view(args@) == eval_args(expr) && state.step()
                == step && state.expr()@ == expr,
            Step::Done(_) => false,
        }
    }

    /// This step ends the work with a failure to decode what the evaluation
    /// `step` of `expr` printed.
    pub open spec fn decode_failed(self, step: EvalStep, expr: String) -> bool {
        self matches Step::Done(Err(e)) && e.step == step && e.expr == expr && e.failure is Decode
    }
}

/// The expression that yields the store path of the flake at `url`.
pub open spec fn flake_path_expr(url: Seq<char>) -> Seq<char> {
    "builtins.getFlake \""@ + url + "\""@
}

/// The expression that imports what lies at `path`.
pub open spec fn import_expr(path: Seq<char>) -> Seq<char> {
    "import "@ + path
}

/// The arguments with which `nix` evaluates `expr`, impurely and with JSON
/// as its output.
pub open spec fn eval_args(expr: Seq<char>) -> Seq<Seq<char>> {
    seq!["eval"@, "--impure"@, "--json"@, "--expr"@, expr]
}

/// The arguments with which `nix` evaluates `expr`, impurely and with JSON
/// as its output.
pub fn nix_eval_impure_expr(expr: &str) -> (args: Vec<String>)
    ensures
        names_view(args@) == eval_args(expr@),
{
    let mut args: Vec<String> = Vec::new();
    args.push(String::from_str("eval"));
    args.push(String::from_str("--impure"));
    args.push(String::from_str("--json"));
    args.push(String::from_str("--expr"));
    args.push(String::from_str(expr));
    assert(names_view(args@) =~= eval_args(expr@));
    args
}

/// Begins the import of the flake at `url`: the first evaluation is to be
/// run.
pub fn nix_import_flake(url: &str) -> (r: Step<Vec<String>>)
    ensures
        r.asks_for(EvalStep::ResolvePath, flake_path_expr(url@)),
{
    let expr = String::from_str("builtins.getFlake \"").concat(url).concat("\"");
    let args = nix_eval_impure_expr(expr.as_str());
    Step::Run { args, state: ImportState::ResolvingPath { expr } }
}

/// What follows the first evaluation, of `expr`, once its output was
/// decoded: with a path the second evaluation is to be run, without one the
/// import has failed and nothing more is run.
pub fn path_resolved(expr: String, decoded: Result<String, DecodeError>) -> (r: Step<Vec<String>>)
    ensures
        match decoded {
            Ok(path) => r.asks_for(EvalStep::Import, import_expr(path@)),
            Err(e) => r == Step::<Vec<String>>::Done(
                Err(EvalError { step: EvalStep::ResolvePath, expr, failure: EvalFailure::Decode(e) }),
            ),
        },
{
    match decoded {
        Ok(path) => {
            let next = String::from_str("import ").concat(path.as_str());
            let args = nix_eval_impure_expr(next.as_str());
            Step::Run { args, state: ImportState::Importing { expr: next } }
        },
        Err(e) => Step::Done(
            Err(EvalError { step: EvalStep::ResolvePath, expr, failure: EvalFailure::Decode(e) }),
        ),
    }
}

/// What follows the second evaluation, of `expr`, once its output was
/// decoded: the import is done, with the value or with the failure.
pub fn value_imported(expr: String, decoded: Result<Vec<String>, DecodeError>) -> (r: Step<
    Vec<String>,
>)
    ensures
        match decoded {
            Ok(value) => r == Step::Done(Ok(value)),
            Err(e) => r == Step::<Vec<String>>::Done(
                Err(EvalError { step: EvalStep::Import, expr, failure: EvalFailure::Decode(e) }),
            ),
        },
{
    match decoded {
        Ok(value) => Step::Done(Ok(value)),
        Err(e) => Step::Done(
            Err(EvalError { step: EvalStep::Import, expr, failure: EvalFailure::Decode(e) }),
        ),
    }
}

/// Decodes the output of the first evaluation: a JSON string.
pub fn decode_path(stdout: &[u8]) -> (r: Result<String, DecodeError>)
    ensures
        match r {
            Ok(path) => json_string(stdout@) == Some(path@),
            Err(_) => json_string(stdout@) is None,
        },
{
    match parse_string(stdout) {
        Ok(path) => Ok(path),
        Err(e) => Err(DecodeError { message: error_message(&e) }),
    }
}

/// Decodes the output of the second evaluation: a JSON list of strings.
pub fn decode_systems(stdout: &[u8]) -> (r: Result<Vec<String>, DecodeError>)
    ensures
        match r {
            Ok(systems) => json_string_list(stdout@) == Some(names_view(systems@)),
            Err(_) => json_string_list(stdout@) is None,
        },
{
    match parse_string_list(stdout) {
        Ok(systems) => Ok(systems),
        Err(e) => Err(DecodeError { message: error_message(&e) }),
    }
}

impl ImportState {
    /// The expression whose outcome is awaited.
    pub open spec fn expr(self) -> String {
        match self {
            ImportState::ResolvingPath { expr } => expr,
            ImportState::Importing { expr } => expr,
        }
    }

    /// Which evaluation is awaited.
    pub open spec fn step(self) -> EvalStep {
        match self {
            ImportState::ResolvingPath { .. } => EvalStep::ResolvePath,
            ImportState::Importing { .. } => EvalStep::Import,
        }
    }

    /// Takes the outcome of the evaluation that was awaited and says what
    /// comes next. A failed run ends the import with that failure, at either
    /// step; so does output that cannot be decoded. The second evaluation is
    /// asked for only after a first one that gave a path, and nothing is
    /// asked for after the second.
    pub fn advance(self, outcome: Result<Vec<u8>, ProcessInvocationError>) -> (r: Step<Vec<String>>)
        ensures
            match outcome {
                Err(e) => r == Step::<Vec<String>>::Done(
                    Err(
                        EvalError {
                            step: self.step(),
                            expr: self.expr(),
                            failure: EvalFailure::Process(e),
                        },
                    ),
                ),
                Ok(stdout) => match self {
                    ImportState::ResolvingPath { expr } => match json_string(stdout@) {
                        Some(path) => r.asks_for(EvalStep::Import, import_expr(path)),
                        None => r.decode_failed(EvalStep::ResolvePath, expr),
                    },
                    ImportState::Importing { expr } => match json_string_list(stdout@) {
                        Some(systems) => r matches Step::Done(Ok(value)) && names_view(value@)
                            == systems,
                        None => r.decode_failed(EvalStep::Import, expr),
                    },
                },
            },
    {
        match outcome {
            Err(e) => match self {
                ImportState::ResolvingPath { expr } => Step::Done(
                    Err(
                        EvalError {
                            step: EvalStep::ResolvePath,
                            expr,
                            failure: EvalFailure::Process(e),
                        },
                    ),
                ),
                ImportState::Importing { expr } => Step::Done(
                    Err(EvalError { step: EvalStep::Import, expr, failure: EvalFailure::Process(e) }),
                ),
            },
            Ok(stdout) => match self {
                ImportState::ResolvingPath { expr } => path_resolved(
                    expr,
                    decode_path(stdout.as_slice()),
                ),
                ImportState::Importing { expr } => value_imported(
                    expr,
                    decode_systems(stdout.as_slice()),
                ),
            },
        }
    }
}

} // verus!
