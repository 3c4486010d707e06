use vstd::prelude::*;

verus! {

/// The node shim: loads the action module, calls its `main(event, callback)`, sends every log line
/// to stderr and writes exactly one JSON object to stdout.
///
/// Usage: `node hs_node_runner.mjs <actionFile> <event.json>`.
pub const NODE_SHIM: &'static str = r#"
import fs from "node:fs";
import path from "node:path";
import { pathToFileURL } from "node:url";

// Arguments passed by the runner
const [, , actionFile, eventPath] = process.argv;

function fatal(message, error = null) {
  process.stdout.write(JSON.stringify({
    ok: false,
    language: "node",
    callback: null,
    error: {
      type: "runtime",
      message,
      stack: error?.stack || null
    }
  }));
  process.exit(1);
}

if (!actionFile || !eventPath) {
  fatal("Usage: node hs_node_runner.mjs <actionFile> <event.json>");
}

let event;
try {
  event = JSON.parse(fs.readFileSync(eventPath, "utf8"));
} catch (e) {
  fatal("Failed to read or parse event.json", e);
}

// Route logs to STDERR so STDOUT stays clean JSON
const stderr = console.error;
const rawStderr = console.error;

console.log = (...args) => {
  rawStderr("__HSE_LOG__ " + args.join(" "));
};

console.error = (...args) => {
  rawStderr("__HSE_ERR__ " + args.join(" "));
};


let callbackPayload = null;
const callback = (payload) => { callbackPayload = payload; };

// Normalize path, then convert to file:// URL (Windows-safe)
const resolvedPath = path.resolve(actionFile);
const actionUrl = pathToFileURL(resolvedPath).href;

// IMPORTANT:
// - Do NOT fall back to `require()` here.
// - If the file has a syntax error, `import()` will throw a SyntaxError,
//   which is exactly what you want to see.
// - Falling back to require on Windows can introduce the EISDIR 'C:' issue
//   when paths include \\?\ prefixes.
let mod;
try {
  mod = await import(actionUrl);
} catch (e) {
  fatal("Failed to load action file", e);
}

// HubSpot expects `main` to be exported
const fn = mod?.main || mod?.default?.main;
if (typeof fn !== "function") {
  fatal("Action file must export main(event, callback)");
}

let ok = true;
let error = null;

try {
  await fn(event, callback);
} catch (e) {
  ok = false;
  error = {
    type: "action",
    message: e?.message || String(e),
    stack: e?.stack || null
  };
}

process.stdout.write(JSON.stringify({
  ok,
  language: "node",
  callback: callbackPayload,
  error
}));
"#;

/// The python shim: imports the action file, calls its `main(event)`, sends every print to stderr
/// and writes exactly one JSON object to stdout.
///
/// Usage: `python hs_python_runner.py <actionFile.py> <event.json>`.
pub const PYTHON_SHIM: &'static str = r#"# hs_python_runner.py
#
# Runtime shim for executing HubSpot Custom Code Actions (Python).
#
# Contract:
# - User code may print/log freely
# - ALL user output is redirected to STDERR
# - STDOUT emits EXACTLY ONE JSON object at the end
# - Any deviation is a hard error

import importlib.util
import json
import sys
import traceback
from contextlib import redirect_stdout
from io import StringIO


def fatal(message, stack=None):
    sys.stdout.write(
        json.dumps(
            {
                "ok": False,
                "language": "python",
                "result": None,
                "error": {
                    "type": "runtime",
                    "message": message,
                    "stack": stack,
                },
            }
        )
    )
    sys.exit(1)


def import_python_file(file_path: str):
    spec = importlib.util.spec_from_file_location("hs_action_module", file_path)
    if spec is None or spec.loader is None:
        raise RuntimeError(f"Unable to import file: {file_path}")

    module = importlib.util.module_from_spec(spec)
    spec.loader.exec_module(module)
    return module


def emit_log(line: str):
    print("__HSE_LOG__", line, file=sys.stderr)


def emit_err(line: str):
    print("__HSE_ERR__", line, file=sys.stderr)


def main():
    if len(sys.argv) < 3:
        fatal("Usage: python hs_python_runner.py <actionFile.py> <event.json>")

    action_file = sys.argv[1]
    event_path = sys.argv[2]

    # Load event
    try:
        with open(event_path, "r", encoding="utf-8") as f:
            event = json.load(f)
    except Exception:
        fatal("Failed to read or parse event.json", traceback.format_exc())

    # Import action module
    try:
        module = import_python_file(action_file)
    except Exception:
        fatal("Failed to load action file", traceback.format_exc())

    if not hasattr(module, "main") or not callable(module.main):
        fatal("Action file must define: def main(event)")

    ok = True
    result = None
    error = None

    # Capture ALL stdout produced by user code
    stdout_buffer = StringIO()
    old_stdout = sys.stdout

    try:
        sys.stdout = stdout_buffer
        with redirect_stdout(stdout_buffer):
            result = module.main(event)
    except Exception as e:
        ok = False
        error = {
            "type": "action",
            "message": str(e),
            "stack": traceback.format_exc(),
        }
    finally:
        sys.stdout = old_stdout

    # Flush captured stdout as structured logs
    captured = stdout_buffer.getvalue()
    if captured:
        for line in captured.splitlines():
            if line.strip():
                emit_log(line)

    # Emit final JSON â€” MUST be the only STDOUT output
    sys.stdout.write(
        json.dumps(
            {
                "ok": ok,
                "language": "python",
                "result": result,
                "error": error,
            }
        )
    )


if __name__ == "__main__":
    main()

"#;

/// The node shim's source text.
pub fn node_shim() -> (r: &'static str)
    ensures
        r@ == NODE_SHIM@,
{
    NODE_SHIM
}

/// The python shim's source text.
pub fn python_shim() -> (r: &'static str)
    ensures
        r@ == PYTHON_SHIM@,
{
    PYTHON_SHIM
}

} // verus!
