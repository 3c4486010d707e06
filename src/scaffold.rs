use vstd::prelude::*;
use crate::run::ascii_lower;

verus! {

/// Starter `assertions.json`.
pub const ASSERTIONS_JSON: &'static str = r#"
{
  "callback.outputFields.success": { "eq": true },
  "language": { "regex": "node|python" }
}
"#;

/// Starter `config.yaml`.
pub const CONFIG_YAML: &'static str = r#"
version: 1

action:
  type: js
  entry: actions/action.js

fixtures:
  - fixtures/event.json

env:
  HUBSPOT_TOKEN: "pat-your-token-here"
  HUBSPOT_BASE_URL: "https://api.hubapi.com"

runtime:
  node: node
  python: python3

output:
  mode: simple # simple | pretty | stdout | file
  # file: results.json

assertions_file: assertions.json

snapshots:
  enabled: true
  ignore:
    - output.timestamp
    - meta.runId
"#;

/// Starter fixture `fixtures/event.json`.
pub const FIXTURE_JSON: &'static str = r#"
{
  "object": {
    "objectType": "CONTACT",
    "objectId": 123456
  },
  "inputFields": {},
  "fields": {},
  "portalId": 12345678
}
"#;

/// Starter JavaScript action.
pub const ACTION_JS: &'static str = r##"
exports.main = async (event, callback) => {
  try {
    console.log("Event:", JSON.stringify(event, null, 2));
    callback({ outputFields: { success: true } });
  } catch (err) {
    console.error(err);
    throw err;
  }
};
"##;

/// Starter Python action.
pub const ACTION_PY: &'static str = r#"
import json

def main(event):
    try:
        print("Event:", json.dumps(event, indent=2))
        return { "outputFields": { "success": True } }
    except Exception as e:
        print(e)
        raise
"#;

/// Starter `assertions.json`.
pub fn default_assertions_json() -> (r: &'static str)
    ensures
        r@ == ASSERTIONS_JSON@,
{
    ASSERTIONS_JSON
}

/// Starter `config.yaml`.
pub fn default_config_yaml() -> (r: &'static str)
    ensures
        r@ == CONFIG_YAML@,
{
    CONFIG_YAML
}

/// Starter fixture `fixtures/event.json`.
pub fn default_fixture_json() -> (r: &'static str)
    ensures
        r@ == FIXTURE_JSON@,
{
    FIXTURE_JSON
}

/// Starter JavaScript action.
pub fn default_action_js() -> (r: &'static str)
    ensures
        r@ == ACTION_JS@,
{
    ACTION_JS
}

/// Starter Python action.
pub fn default_action_py() -> (r: &'static str)
    ensures
        r@ == ACTION_PY@,
{
    ACTION_PY
}

/// Language of a starter action.
#[derive(PartialEq, Eq, Structural)]
pub enum StarterLanguage {
    Js,
    Python,
}

/// The starter action a language asks for (`js`, `javascript`, `python` or `py`, in any ASCII
/// case), if any.
pub open spec fn starter_for(language: Seq<char>) -> Option<StarterLanguage> {
    let l = ascii_lower(language);
    if l == "js"@ || l == "javascript"@ {
        Some(StarterLanguage::Js)
    } else if l == "python"@ || l == "py"@ {
        Some(StarterLanguage::Python)
    } else {
        None
    }
}

/// Picks the starter action for a language name.
pub fn starter_language(language: &str) -> (r: Option<StarterLanguage>)
    ensures
        r == starter_for(language@),
{
    let v = crate::text::chars_of(language);
    let l = crate::run::lower_vec(&v);
    if crate::run::is_word(&l, "js") || crate::run::is_word(&l, "javascript") {
        Some(StarterLanguage::Js)
    } else if crate::run::is_word(&l, "python") || crate::run::is_word(&l, "py") {
        Some(StarterLanguage::Python)
    } else {
        None
    }
}

/// Path and contents of a starter action.
pub fn starter_action(lang: &StarterLanguage) -> (r: (&'static str, &'static str))
    ensures
        *lang == StarterLanguage::Js ==> r.0@ == "actions/action.js"@ && r.1@ == ACTION_JS@,
        *lang == StarterLanguage::Python ==> r.0@ == "actions/action.py"@ && r.1@ == ACTION_PY@,
{
    match lang {
        StarterLanguage::Js => ("actions/action.js", ACTION_JS),
        StarterLanguage::Python => ("actions/action.py", ACTION_PY),
    }
}

} // verus!
