use nautilus_runtime::engine::{
    complete_execution, prepare_execution, ExecError, ProcessOutcome,
};
use nautilus_runtime::json::json_hash;
use nautilus_runtime::registry::{Language, Registry};

fn value(text: &str) -> serde_json::Value {
    serde_json::from_str(text).unwrap()
}

fn exited(success: bool, stdout: &str, stderr: &str) -> ProcessOutcome {
    ProcessOutcome::Exited {
        success,
        stdout: stdout.to_string(),
        stderr: stderr.to_string(),
    }
}

#[test]
fn input_hash_is_canonical_over_key_order() {
    let mut reg = Registry::new();
    reg.register(
        Some("p".to_string()),
        Language::Js,
        "function main(input) { return input; }".to_string(),
    );
    let a = value("{\"a\": 1, \"b\": [1, 2]}");
    let b = value("{ \"b\" : [1, 2],   \"a\" : 1 }");
    let pa = prepare_execution(&reg, "p", &a).ok().unwrap();
    let pb = prepare_execution(&reg, "p", &b).ok().unwrap();
    assert_eq!(pa.input_hash, pb.input_hash);
    assert_eq!(pa.input_hash, json_hash(&a));
    assert_eq!(pa.input_hash.len(), 64);

    let c = value("{\"a\": 1, \"b\": [1, 3]}");
    let pc = prepare_execution(&reg, "p", &c).ok().unwrap();
    assert_ne!(pc.input_hash, pa.input_hash);
    // The payload is delivered exactly as it was hashed.
    assert_eq!(pa.plan.payload_arg, "{\"a\":1,\"b\":[1,2]}");
}

#[test]
fn js_doubled_scenario_builds_the_envelope() {
    let mut reg = Registry::new();
    let rec = reg.register(
        Some("dbl".to_string()),
        Language::Js,
        "export async function main(input) { return { doubled: input.n * 2 }; }".to_string(),
    );
    let payload = value("{\"n\": 21}");
    let prepared = prepare_execution(&reg, "dbl", &payload).ok().unwrap();
    assert_eq!(prepared.plan.engine.name(), "node");
    assert!(prepared
        .plan
        .harness
        .contains("async function main(input) { return { doubled: input.n * 2 }; }"));
    assert!(!prepared.plan.harness.contains("export"));

    // What node prints for this program and payload is the serialized result.
    let outcome = exited(true, "{\"doubled\":42}", "");
    let resp = complete_execution(prepared, outcome, 1700).ok().unwrap();
    assert_eq!(resp.output, value("{\"doubled\": 42}"));
    assert_eq!(resp.program_id, "dbl");
    assert_eq!(resp.code_hash, rec.code_hash);
    assert_eq!(resp.input_hash, json_hash(&payload));
    assert_eq!(resp.timestamp_ms, 1700);
}

#[test]
fn py_sum_scenario_builds_the_envelope() {
    let mut reg = Registry::new();
    reg.register(
        Some("sum".to_string()),
        Language::Py,
        "def main(input):\n    return {\"sum\": sum(input[\"values\"])}".to_string(),
    );
    let payload = value("{\"values\": [1, 2, 3]}");
    let prepared = prepare_execution(&reg, "sum", &payload).ok().unwrap();
    assert_eq!(prepared.plan.engine.name(), "python");
    // python's print ends the line; the trimmed stdout is the JSON result.
    let outcome = exited(true, "{\"sum\": 6}\n", "");
    let resp = complete_execution(prepared, outcome, 42).ok().unwrap();
    assert_eq!(resp.output, value("{\"sum\": 6}"));
    assert_eq!(resp.timestamp_ms, 42);
}

#[test]
fn spawn_failure_is_execution_failed() {
    let mut reg = Registry::new();
    reg.register(Some("p".to_string()), Language::Js, "x".to_string());
    let payload = value("null");
    let prepared = prepare_execution(&reg, "p", &payload).ok().unwrap();
    let outcome = ProcessOutcome::SpawnFailed {
        message: "no node binary on this host".to_string(),
    };
    match complete_execution(prepared, outcome, 0) {
        Err(ExecError::ExecutionFailed { engine, message }) => {
            assert_eq!(engine.name(), "node");
            assert_eq!(message, "no node binary on this host");
        }
        _ => panic!("a spawn failure must surface as execution_failed"),
    }
}

#[test]
fn failing_exit_carries_stderr() {
    let mut reg = Registry::new();
    reg.register(Some("p".to_string()), Language::Py, "x".to_string());
    let payload = value("null");
    let prepared = prepare_execution(&reg, "p", &payload).ok().unwrap();
    let outcome = exited(false, "", "Traceback: main(input) is not defined");
    match complete_execution(prepared, outcome, 0) {
        Err(ExecError::ExecutionFailed { engine, message }) => {
            assert_eq!(engine.name(), "python");
            assert_eq!(message, "python error: Traceback: main(input) is not defined");
        }
        _ => panic!("a failing exit must surface as execution_failed"),
    }
}

#[test]
fn unparsable_stdout_is_execution_failed() {
    let mut reg = Registry::new();
    reg.register(Some("p".to_string()), Language::Js, "x".to_string());
    let payload = value("null");
    let prepared = prepare_execution(&reg, "p", &payload).ok().unwrap();
    let outcome = exited(true, "I am not JSON", "");
    match complete_execution(prepared, outcome, 0) {
        Err(ExecError::ExecutionFailed { engine, message }) => {
            assert_eq!(engine.name(), "node");
            assert!(!message.is_empty());
        }
        _ => panic!("bad stdout must surface as execution_failed"),
    }
}

#[test]
fn sequential_runs_agree_and_timestamps_do_not_decrease() {
    let mut reg = Registry::new();
    let rec = reg.register(
        Some("det".to_string()),
        Language::Js,
        "function main(input) { return input.n + 1; }".to_string(),
    );
    let payload = value("{\"n\": 1}");
    let p1 = prepare_execution(&reg, "det", &payload).ok().unwrap();
    let p2 = prepare_execution(&reg, "det", &payload).ok().unwrap();
    // A deterministic program prints the same result on both runs.
    let r1 = complete_execution(p1, exited(true, "2", ""), 100).ok().unwrap();
    let r2 = complete_execution(p2, exited(true, "2", ""), 250).ok().unwrap();
    assert_eq!(r1.output, r2.output);
    assert_eq!(r1.code_hash, r2.code_hash);
    assert_eq!(r1.code_hash, rec.code_hash);
    assert!(r1.timestamp_ms <= r2.timestamp_ms);
}
