//! The execution engine: resolving a program, planning its harness run,
//! and turning the observed outcome of that run into the standard response
//! envelope or into the error taxonomy.

use vstd::prelude::*;

use crate::adapters::{harness_of, invocation_source};
use crate::hashing::{sha256_hex, sha256_hex_of};
use crate::json::{canonical_json, canonical_of, json_parse_of, parse_json};
use crate::registry::{Language, Registry};
use crate::text::{trim_ws, trimmed};

verus! {

/// The runtime a program is executed by: node for JavaScript and TypeScript,
/// python for Python.
#[derive(Clone, Copy, PartialEq, Eq, Structural)]
pub enum Engine {
    Node,
    Python,
}

/// The engine that executes programs of `language`.
pub open spec fn engine_of(language: Language) -> Engine {
    match language {
        Language::Js | Language::Ts => Engine::Node,
        Language::Py => Engine::Python,
    }
}

/// The tag naming `e` in failure reports.
pub open spec fn engine_name(e: Engine) -> Seq<char> {
    match e {
        Engine::Node => "node"@,
        Engine::Python => "python"@,
    }
}

/// The text put before the captured standard error of a run that exited with
/// a failing status.
pub open spec fn error_prefix(e: Engine) -> Seq<char> {
    match e {
        Engine::Node => "node error: "@,
        Engine::Python => "python error: "@,
    }
}

impl Engine {
    /// Maps each language to its engine.
    pub fn for_language(language: Language) -> (r: Engine)
        ensures
            r == engine_of(language),
    {
        match language {
            Language::Js | Language::Ts => Engine::Node,
            Language::Py => Engine::Python,
        }
    }

    /// The engine's tag, as it appears in failure reports.
    pub fn name(&self) -> (r: &'static str)
        ensures
            r@ == engine_name(*self),
    {
        match self {
            Engine::Node => "node",
            Engine::Python => "python",
        }
    }
}

/// Why an execute request failed: the id resolved to nothing, or the
/// adapter's run failed (spawn failure, failing exit status, or output that
/// is not JSON), tagged with the engine and free diagnostic text.
pub enum ExecError {
    ProgramNotFound,
    ExecutionFailed { engine: Engine, message: String },
}

impl ExecError {
    /// True for the not-found failure.
    pub fn is_not_found(&self) -> (r: bool)
        ensures
            r == (*self is ProgramNotFound),
    {
        match self {
            ExecError::ProgramNotFound => true,
            _ => false,
        }
    }
}

/// Everything the caller must do to run a prepared execution: which engine to
/// start, the harness source to hand it, and the serialized payload to pass
/// as the single process argument.
pub struct InvocationPlan {
    pub engine: Engine,
    pub harness: String,
    pub payload_arg: String,
}

/// A resolved execute request: the provenance copied out of the registry at
/// resolution time, the input hash of the payload as delivered, and the plan
/// for the harness run.
pub struct PreparedExecution {
    pub program_id: String,
    pub code_hash: String,
    pub input_hash: String,
    pub plan: InvocationPlan,
}

/// What the caller observed of one harness subprocess: it could not be
/// started at all, or it exited, with its status and both captured streams.
pub enum ProcessOutcome {
    SpawnFailed { message: String },
    Exited { success: bool, stdout: String, stderr: String },
}

/// The response envelope of a successful execution.
pub struct ExecutionResponse {
    pub program_id: String,
    pub code_hash: String,
    pub input_hash: String,
    pub output: serde_json::Value,
    pub timestamp_ms: u64,
}

/// What a prepared execution promises about the record it was resolved from
/// and the payload it will deliver.
pub open spec fn prepared_for(
    p: PreparedExecution,
    reg: Registry,
    id: Seq<char>,
    payload: serde_json::Value,
) -> bool {
    &&& reg.contents().contains_key(id)
    &&& p.program_id@ == id
    &&& p.code_hash@ == reg.contents()[id].code_hash@
    &&& p.input_hash@ == sha256_hex_of(canonical_of(payload))
    &&& p.plan.engine == engine_of(reg.contents()[id].language)
    &&& p.plan.harness@ == harness_of(reg.contents()[id].language, reg.contents()[id].code@)
    &&& p.plan.payload_arg@ == canonical_of(payload)
}

/// Resolves an execute request: looks the program up, computes the hash of
/// the payload as it will be delivered, and plans the harness run. Fails
/// with the not-found error exactly when the id is unregistered; a miss
/// yields nothing else of the request.
pub fn prepare_execution(reg: &Registry, id: &str, payload: &serde_json::Value) -> (r: Result<
    PreparedExecution,
    ExecError,
>)
    requires
        reg.wf(),
    ensures
        r is Ok <==> reg.contents().contains_key(id@),
        r matches Ok(p) ==> prepared_for(p, *reg, id@, *payload),
        r matches Err(e) ==> e is ProgramNotFound,
{
    let record = match reg.lookup(id) {
        Some(record) => record,
        None => {
            return Err(ExecError::ProgramNotFound);
        },
    };
    proof {
        crate::registry::lemma_contents_wf(*reg, id@);
    }
    let payload_arg = canonical_json(payload);
    let input_hash = sha256_hex(payload_arg.as_str());
    let harness = invocation_source(record.language, record.code.as_str());
    let engine = Engine::for_language(record.language);
    Ok(
        PreparedExecution {
            program_id: record.id.clone(),
            code_hash: record.code_hash.clone(),
            input_hash,
            plan: InvocationPlan { engine, harness, payload_arg },
        },
    )
}

/// How the response (or failure) of a completed run is determined by the
/// prepared execution, the observed outcome, and the sampled timestamp.
pub open spec fn completes_to(
    p: PreparedExecution,
    o: ProcessOutcome,
    ts: u64,
    r: Result<ExecutionResponse, ExecError>,
) -> bool {
    match o {
        ProcessOutcome::SpawnFailed { message } => match r {
            Err(ExecError::ExecutionFailed { engine, message: m }) => {
                &&& engine == p.plan.engine
                &&& m@ == message@
            },
            _ => false,
        },
        ProcessOutcome::Exited { success, stdout, stderr } => {
            if !success {
                match r {
                    Err(ExecError::ExecutionFailed { engine, message: m }) => {
                        &&& engine == p.plan.engine
                        &&& m@ == error_prefix(p.plan.engine) + stderr@
                    },
                    _ => false,
                }
            } else {
                match json_parse_of(trimmed(stdout@)) {
                    Ok(v) => match r {
                        Ok(resp) => {
                            &&& resp.program_id@ == p.program_id@
                            &&& resp.code_hash@ == p.code_hash@
                            &&& resp.input_hash@ == p.input_hash@
                            &&& resp.output == v
                            &&& resp.timestamp_ms == ts
                        },
                        _ => false,
                    },
                    Err(msg) => match r {
                        Err(ExecError::ExecutionFailed { engine, message: m }) => {
                            &&& engine == p.plan.engine
                            &&& m@ == msg
                        },
                        _ => false,
                    },
                }
            }
        },
    }
}

fn failure_message(engine: Engine, stderr: &str) -> (r: String)
    ensures
        r@ == error_prefix(engine) + stderr@,
{
    let mut m: String = match engine {
        Engine::Node => "node error: ".to_owned(),
        Engine::Python => "python error: ".to_owned(),
    };
    m.append(stderr);
    m
}

/// Turns the observed outcome of a harness run into the response envelope:
/// on a clean exit the trimmed standard output is parsed as the one JSON
/// result; every failure becomes the execution-failed error carrying the
/// engine tag and diagnostic text, and a result is never partially filled.
/// The timestamp is the caller's sample taken after the run completed.
pub fn complete_execution(prepared: PreparedExecution, outcome: ProcessOutcome, timestamp_ms: u64)
    -> (r: Result<ExecutionResponse, ExecError>)
    ensures
        completes_to(prepared, outcome, timestamp_ms, r),
{
    let engine = prepared.plan.engine;
    match outcome {
        ProcessOutcome::SpawnFailed { message } => Err(
            ExecError::ExecutionFailed { engine, message },
        ),
        ProcessOutcome::Exited { success, stdout, stderr } => {
            if !success {
                Err(
                    ExecError::ExecutionFailed {
                        engine,
                        message: failure_message(engine, stderr.as_str()),
                    },
                )
            } else {
                let trimmed_out = trim_ws(stdout.as_str());
                match parse_json(trimmed_out) {
                    Ok(output) => Ok(
                        ExecutionResponse {
                            program_id: prepared.program_id,
                            code_hash: prepared.code_hash,
                            input_hash: prepared.input_hash,
                            output,
                            timestamp_ms,
                        },
                    ),
                    Err(message) => Err(ExecError::ExecutionFailed { engine, message }),
                }
            }
        },
    }
}

/// A successful exit, as observed.
pub open spec fn is_success_exit(o: ProcessOutcome) -> bool {
    match o {
        ProcessOutcome::Exited { success, .. } => success,
        _ => false,
    }
}

/// The standard output an exited run produced.
pub open spec fn exit_stdout(o: ProcessOutcome) -> Seq<char> {
    match o {
        ProcessOutcome::Exited { stdout, .. } => stdout@,
        _ => Seq::empty(),
    }
}

/// Completing a run is deterministic in what was observed: two clean exits
/// of the same prepared execution with the same captured standard output
/// succeed together, return the same parsed output and the same code hash,
/// and carry exactly the timestamps that were sampled for them — so two
/// sequential executions of a deterministic program agree on `output` and
/// `code_hash`, and their timestamps sit in sampling order.
pub proof fn lemma_completion_deterministic(
    p1: PreparedExecution,
    p2: PreparedExecution,
    o1: ProcessOutcome,
    o2: ProcessOutcome,
    t1: u64,
    t2: u64,
    r1: Result<ExecutionResponse, ExecError>,
    r2: Result<ExecutionResponse, ExecError>,
)
    requires
        completes_to(p1, o1, t1, r1),
        completes_to(p2, o2, t2, r2),
        p1.code_hash@ == p2.code_hash@,
        is_success_exit(o1),
        is_success_exit(o2),
        exit_stdout(o1) == exit_stdout(o2),
    ensures
        r1 is Ok <==> r2 is Ok,
        r1 is Ok ==> r1->Ok_0.output == r2->Ok_0.output,
        r1 is Ok ==> r1->Ok_0.code_hash@ == r2->Ok_0.code_hash@,
        r1 is Ok ==> r1->Ok_0.timestamp_ms == t1 && r2->Ok_0.timestamp_ms == t2,
{
}

} // verus!
