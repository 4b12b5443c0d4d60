//! Language invocation adapters: the lexical normalization of user source,
//! the escaping that makes it safe to embed, and the generation of the
//! per-language harness program that runs a user's `main` on a JSON payload
//! and reserves standard output for the result.

use vstd::prelude::*;

use crate::registry::Language;
use crate::text::{match_at, starts_with_at};

verus! {

/// A character that can continue an identifier: stripping `export` is only
/// sound when the declared name ends right after `main`.
pub open spec fn is_ident_char(c: char) -> bool {
    ('a' <= c && c <= 'z') || ('A' <= c && c <= 'Z') || ('0' <= c && c <= '9') || c == '_' || c
        == '$'
}

fn is_ident_char_exec(c: char) -> (r: bool)
    ensures
        r == is_ident_char(c),
{
    ('a' <= c && c <= 'z') || ('A' <= c && c <= 'Z') || ('0' <= c && c <= '9') || c == '_' || c
        == '$'
}

/// `s` begins with the declaration head `pat`, ended there: the following
/// character, if any, cannot continue an identifier.
pub open spec fn head_decl(s: Seq<char>, pat: Seq<char>) -> bool {
    &&& starts_with_at(s, 0, pat)
    &&& (s.len() == pat.len() || !is_ident_char(s[pat.len() as int]))
}

/// `s` begins with an exported declaration of `main`: the `export` keyword,
/// then one of the three declaration forms the adapter recognizes.
pub open spec fn export_main_at(s: Seq<char>) -> bool {
    &&& s.len() >= 7
    &&& starts_with_at(s, 0, "export "@)
    &&& {
        ||| head_decl(s.skip(7), "async function main"@)
        ||| head_decl(s.skip(7), "function main"@)
        ||| head_decl(s.skip(7), "const main"@)
    }
}

/// The normalized source: wherever a line begins with an exported `main`
/// declaration, the `export ` prefix is dropped; everything else is kept.
pub open spec fn norm_js(s: Seq<char>, at_line_start: bool) -> Seq<char>
    decreases s.len(),
{
    if s.len() == 0 {
        Seq::empty()
    } else if at_line_start && export_main_at(s) {
        norm_js(s.skip(7), false)
    } else {
        seq![s[0]] + norm_js(s.skip(1), s[0] == '\n')
    }
}

/// The escaped source: every triple single-quote is replaced by a backslash-
/// escaped one, so that it cannot terminate the harness's quoted literal.
pub open spec fn escape_triple(s: Seq<char>) -> Seq<char>
    decreases s.len(),
{
    if s.len() == 0 {
        Seq::empty()
    } else if s.len() >= 3 && starts_with_at(s, 0, "'''"@) {
        "\\'\\'\\'"@ + escape_triple(s.skip(3))
    } else {
        seq![s[0]] + escape_triple(s.skip(1))
    }
}

proof fn lemma_starts_with_shift(s: Seq<char>, i: int, pat: Seq<char>)
    requires
        0 <= i <= s.len(),
    ensures
        starts_with_at(s, i, pat) == starts_with_at(s.skip(i), 0, pat),
{
    assert(s.skip(i).len() == s.len() - i);
    if i + pat.len() <= s.len() {
        assert(s.skip(i).subrange(0, pat.len() as int) =~= s.subrange(i, i + pat.len()));
    }
}

fn head_decl_at(code: &str, i: usize, pat: &str) -> (r: bool)
    requires
        i <= code@.len(),
    ensures
        r == head_decl(code@.skip(i as int), pat@),
{
    proof {
        lemma_starts_with_shift(code@, i as int, pat@);
    }
    if !match_at(code, i, pat) {
        return false;
    }
    let l = pat.unicode_len();
    let n = code.unicode_len();
    if i + l == n {
        return true;
    }
    let c = code.get_char(i + l);
    proof {
        assert(code@.skip(i as int)[pat@.len() as int] == code@[i as int + pat@.len() as int]);
    }
    !is_ident_char_exec(c)
}

fn export_match_at(code: &str, i: usize) -> (r: bool)
    requires
        i <= code@.len(),
    ensures
        r == export_main_at(code@.skip(i as int)),
{
    proof {
        reveal_strlit("export ");
        lemma_starts_with_shift(code@, i as int, "export "@);
    }
    if !match_at(code, i, "export ") {
        return false;
    }
    let n = code.unicode_len();
    proof {
        assert(i + 7 <= n);
    }
    let j = i + 7;
    proof {
        assert(code@.skip(i as int).skip(7) =~= code@.skip(j as int));
    }
    head_decl_at(code, j, "async function main") || head_decl_at(code, j, "function main")
        || head_decl_at(code, j, "const main")
}

/// Strips the export wrapper from a `main` declaration standing at the start
/// of a line, so that the declaration is an ordinarily callable symbol inside
/// the generated harness scope. The scan is anchored at line starts; the same
/// words elsewhere in a line (in a comment, a string, another position) are
/// left alone.
#[verifier::loop_isolation(false)]
pub fn normalize_js(code: &str) -> (r: String)
    ensures
        r@ == norm_js(code@, true),
{
    let n = code.unicode_len();
    let mut out = String::new();
    let mut i: usize = 0;
    let mut at_start: bool = true;
    proof {
        assert(code@.skip(0) =~= code@);
    }
    while i < n
        invariant
            i <= n,
            norm_js(code@, true) == out@ + norm_js(code@.skip(i as int), at_start),
        decreases n - i,
    {
        if at_start && export_match_at(code, i) {
            proof {
                reveal_strlit("export ");
                assert(code@.skip(i as int).skip(7) =~= code@.skip(i as int + 7));
            }
            i += 7;
            at_start = false;
        } else {
            let c = code.get_char(i);
            let piece = code.substring_char(i, i + 1);
            proof {
                assert(piece@ =~= seq![code@[i as int]]);
                assert(code@.skip(i as int)[0] == code@[i as int]);
                assert(code@.skip(i as int).skip(1) =~= code@.skip(i as int + 1));
                assert((out@ + piece@) + norm_js(code@.skip(i as int + 1), code@[i as int] == '\n')
                    =~= out@ + (piece@ + norm_js(code@.skip(i as int + 1), code@[i as int] == '\n')));
            }
            out.append(piece);
            at_start = c == '\n';
            i += 1;
        }
    }
    proof {
        assert(code@.skip(n as int) =~= Seq::<char>::empty());
        assert(out@ + Seq::<char>::empty() =~= out@);
    }
    out
}

/// Escapes every `'''` in the source, so that embedding the text between the
/// harness's own triple quotes never terminates that literal early.
#[verifier::loop_isolation(false)]
pub fn escape_python_triple_quotes(code: &str) -> (r: String)
    ensures
        r@ == escape_triple(code@),
{
    let n = code.unicode_len();
    let mut out = String::new();
    let mut i: usize = 0;
    proof {
        assert(code@.skip(0) =~= code@);
    }
    while i < n
        invariant
            i <= n,
            escape_triple(code@) == out@ + escape_triple(code@.skip(i as int)),
        decreases n - i,
    {
        proof {
            reveal_strlit("'''");
            lemma_starts_with_shift(code@, i as int, "'''"@);
        }
        if match_at(code, i, "'''") {
            proof {
                assert(code@.skip(i as int).skip(3) =~= code@.skip(i as int + 3));
                assert((out@ + "\\'\\'\\'"@) + escape_triple(code@.skip(i as int + 3)) =~= out@ + (
                "\\'\\'\\'"@ + escape_triple(code@.skip(i as int + 3))));
            }
            out.append("\\'\\'\\'");
            i += 3;
        } else {
            let c = code.get_char(i);
            let piece = code.substring_char(i, i + 1);
            proof {
                assert(piece@ =~= seq![code@[i as int]]);
                assert(code@.skip(i as int)[0] == code@[i as int]);
                assert(code@.skip(i as int).skip(1) =~= code@.skip(i as int + 1));
                assert((out@ + piece@) + escape_triple(code@.skip(i as int + 1)) =~= out@ + (piece@
                    + escape_triple(code@.skip(i as int + 1))));
            }
            out.append(piece);
            i += 1;
        }
    }
    proof {
        assert(code@.skip(n as int) =~= Seq::<char>::empty());
        assert(out@ + Seq::<char>::empty() =~= out@);
    }
    out
}

/// The node harness around the normalized user source: it parses the payload
/// from the single process argument, checks that `main` is callable, routes
/// anything the user code writes to standard output over to standard error
/// while `main` runs, and writes the JSON-serialized return value, and it
/// alone, to standard output; an uncaught failure goes to standard error and
/// exits with a failing status.
pub open spec fn node_harness(user: Seq<char>) -> Seq<char> {
    "
const input = JSON.parse(process.argv[2]);

async function __run() {
"@ + user
        + "

  if (typeof main !== 'function') {
    throw new Error('main(input) is not defined');
  }

  const __stdout_write = process.stdout.write.bind(process.stdout);
  process.stdout.write = function (chunk, encoding, callback) {
    return process.stderr.write(chunk, encoding, callback);
  };
  let result;
  try {
    result = await main(input);
  } finally {
    process.stdout.write = __stdout_write;
  }
  process.stdout.write(JSON.stringify(result));
}

__run().catch(e => {
  console.error(e);
  process.exit(1);
});
"@
}

/// The python harness around the escaped user source: same protocol as the
/// node harness, with the user code embedded in a triple-quoted literal and
/// executed into a fresh scope, and user prints gathered into a buffer that
/// is replayed on standard error.
pub open spec fn python_harness(user: Seq<char>) -> Seq<char> {
    r#"
import json, sys, contextlib, io

USER_CODE = '''"#@ + user
        + r#"'''

globals_dict = {}
exec(USER_CODE, globals_dict)

if "main" not in globals_dict or not callable(globals_dict["main"]):
    raise RuntimeError("main(input) is not defined")

input_data = json.loads(sys.argv[1])

buf = io.StringIO()
with contextlib.redirect_stdout(buf):
    result = globals_dict["main"](input_data)

debug_output = buf.getvalue()
if debug_output:
    sys.stderr.write(debug_output)

print(json.dumps(result))
"#@
}

/// The harness source that executes `code` in the runtime of `language`.
pub open spec fn harness_of(language: Language, code: Seq<char>) -> Seq<char> {
    match language {
        Language::Js | Language::Ts => node_harness(norm_js(code, true)),
        Language::Py => python_harness(escape_triple(code)),
    }
}

/// Builds the node harness for the given user source.
pub fn node_invocation_source(code: &str) -> (r: String)
    ensures
        r@ == node_harness(norm_js(code@, true)),
{
    let normalized = normalize_js(code);
    let mut out: String = "
const input = JSON.parse(process.argv[2]);

async function __run() {
".to_owned();
    out.append(normalized.as_str());
    out.append(
        "

  if (typeof main !== 'function') {
    throw new Error('main(input) is not defined');
  }

  const __stdout_write = process.stdout.write.bind(process.stdout);
  process.stdout.write = function (chunk, encoding, callback) {
    return process.stderr.write(chunk, encoding, callback);
  };
  let result;
  try {
    result = await main(input);
  } finally {
    process.stdout.write = __stdout_write;
  }
  process.stdout.write(JSON.stringify(result));
}

__run().catch(e => {
  console.error(e);
  process.exit(1);
});
",
    );
    out
}

/// Builds the python harness for the given user source.
pub fn python_invocation_source(code: &str) -> (r: String)
    ensures
        r@ == python_harness(escape_triple(code@)),
{
    let escaped = escape_python_triple_quotes(code);
    let mut out: String = r#"
import json, sys, contextlib, io

USER_CODE = '''"#.to_owned();
    out.append(escaped.as_str());
    out.append(
        r#"'''

globals_dict = {}
exec(USER_CODE, globals_dict)

if "main" not in globals_dict or not callable(globals_dict["main"]):
    raise RuntimeError("main(input) is not defined")

input_data = json.loads(sys.argv[1])

buf = io.StringIO()
with contextlib.redirect_stdout(buf):
    result = globals_dict["main"](input_data)

debug_output = buf.getvalue()
if debug_output:
    sys.stderr.write(debug_output)

print(json.dumps(result))
"#,
    );
    out
}

/// Builds the harness that runs `code` under `language`'s engine.
pub fn invocation_source(language: Language, code: &str) -> (r: String)
    ensures
        r@ == harness_of(language, code@),
{
    match language {
        Language::Js | Language::Ts => node_invocation_source(code),
        Language::Py => python_invocation_source(code),
    }
}

} // verus!
