use nautilus_runtime::adapters::{
    escape_python_triple_quotes, invocation_source, node_invocation_source, normalize_js,
    python_invocation_source,
};
use nautilus_runtime::registry::Language;
use nautilus_runtime::text::{str_eq, trim_ws};

#[test]
fn normalize_strips_export_forms() {
    assert_eq!(
        normalize_js("export function main(input) { return 1; }"),
        "function main(input) { return 1; }"
    );
    assert_eq!(
        normalize_js("export async function main(input) { return 1; }"),
        "async function main(input) { return 1; }"
    );
    assert_eq!(
        normalize_js("export const main = (input) => input;"),
        "const main = (input) => input;"
    );
    assert_eq!(
        normalize_js("const a = 1;\nexport function main(input) { return a; }\n"),
        "const a = 1;\nfunction main(input) { return a; }\n"
    );
}

#[test]
fn normalize_is_anchored_at_line_starts() {
    // Mid-line occurrences (comments, strings) are left alone.
    assert_eq!(
        normalize_js("// export function main was removed\nfunction main(input) { return 1; }"),
        "// export function main was removed\nfunction main(input) { return 1; }"
    );
    let quoted = "const s = 'export function main';";
    assert_eq!(normalize_js(quoted), quoted);
    // A longer identifier is not `main`.
    let frame = "export function mainframe(input) { return 1; }";
    assert_eq!(normalize_js(frame), frame);
    // Other exported declarations are kept as written.
    let other = "export function helper() {}\nfunction main(input) { return helper(); }";
    assert_eq!(normalize_js(other), other);
}

#[test]
fn escape_triple_quotes_protects_harness_literal() {
    assert_eq!(
        escape_python_triple_quotes("x = '''abc'''"),
        "x = \\'\\'\\'abc\\'\\'\\'"
    );
    let plain = "def main(input):\n    return 'ok'\n";
    assert_eq!(escape_python_triple_quotes(plain), plain);
    let harness = python_invocation_source("doc = '''text'''");
    assert!(!harness.contains("= '''text"));
    assert!(harness.contains("\\'\\'\\'text\\'\\'\\'"));
}

#[test]
fn harnesses_check_that_main_is_defined() {
    let node = node_invocation_source("function other(input) { return 1; }");
    assert!(node.contains("if (typeof main !== 'function')"));
    assert!(node.contains("main(input) is not defined"));

    let py = python_invocation_source("def other(input):\n    return 1\n");
    assert!(py.contains("if \"main\" not in globals_dict or not callable(globals_dict[\"main\"])"));
    assert!(py.contains("main(input) is not defined"));
}

#[test]
fn harnesses_reserve_stdout_for_the_result() {
    let node = node_invocation_source("function main(input) { console.log('hi'); return 1; }");
    // While main runs, writes to stdout are routed to stderr; only the
    // serialized result is written to stdout afterwards.
    assert!(node.contains("process.stdout.write = function (chunk, encoding, callback)"));
    assert!(node.contains("process.stderr.write(chunk, encoding, callback)"));
    assert!(node.contains("process.stdout.write(JSON.stringify(result));"));

    let py = python_invocation_source("def main(input):\n    print('hi')\n    return 1\n");
    assert!(py.contains("with contextlib.redirect_stdout(buf):"));
    assert!(py.contains("sys.stderr.write(debug_output)"));
    assert!(py.contains("print(json.dumps(result))"));
}

#[test]
fn harnesses_embed_the_user_code_and_payload_protocol() {
    let node = invocation_source(Language::Ts, "function main(input) { return input.n; }");
    assert!(node.contains("const input = JSON.parse(process.argv[2]);"));
    assert!(node.contains("function main(input) { return input.n; }"));
    assert!(node.contains("result = await main(input);"));

    let py = invocation_source(Language::Py, "def main(input):\n    return input\n");
    assert!(py.contains("input_data = json.loads(sys.argv[1])"));
    assert!(py.contains("def main(input):"));
    assert!(py.contains("globals_dict[\"main\"](input_data)"));
}

#[test]
fn text_helpers_behave() {
    assert!(str_eq("abc", "abc"));
    assert!(!str_eq("abc", "abd"));
    assert!(!str_eq("abc", "ab"));
    assert_eq!(trim_ws("  {\"a\": 1}\n\t"), "{\"a\": 1}");
    assert_eq!(trim_ws("\n \r\t "), "");
    assert_eq!(trim_ws("plain"), "plain");
}
