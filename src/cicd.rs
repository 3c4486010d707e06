use vstd::prelude::*;
use crate::text::{push_str, string_of};

verus! {

/// The kinds of CI/CD set-up besides the config file.
#[derive(PartialEq, Eq, Structural)]
pub enum CicdInitKind {
    /// A GitHub Actions workflow.
    Action,
}

/// The CI/CD commands.
pub enum CicdCommand {
    Init { runtime: String, kind: Option<CicdInitKind>, branch: Option<String> },
}

/// Why a CI/CD set-up was refused.
pub enum CicdError {
    /// `--branch` was given without the GitHub Actions kind.
    BranchWithoutAction,
    /// The runtime is neither `js` nor `python`.
    UnsupportedRuntime { runtime: String },
}

/// The files a CI/CD set-up writes.
pub struct CicdFiles {
    /// Contents of `.hsemulator/cicd.yaml`.
    pub cicd_yaml: String,
    /// Contents of `.github/workflows/hsemulator.yml`, when a workflow is asked for.
    pub github_workflow: Option<String>,
}

pub const CICD_YAML_HEAD: &'static str = r#"
version: 1

hubspot:
  # Leave blank for local testing only.
  token: 'REPLACE_ME'

targets:
  production:
    portal: eu1
    workflow_id: "REPLACE_ME"

    selector:
      type: secret
      value: HS_ACTION__REPLACE_ME
      require_unique: true

    runtime: "#;

pub const CICD_YAML_TAIL: &'static str = r#"

    safety:
      require_clean_tests: true
      require_snapshot_match: true
      max_duration_ms: 4000

    deploy:
      mode: full-flow-replace
      dry_run: false
"#;

pub const WORKFLOW_HEAD: &'static str = r#"
name: hsemulator

on:
  push:
    branches: ["#;

pub const WORKFLOW_TAIL: &'static str = r#"]

jobs:
  test-and-promote:
    runs-on: ubuntu-latest

    steps:
      - uses: actions/checkout@v4

      - name: Install hsemulator
        run: |
          curl -L https://github.com/morganzwest/hsemulator/releases/latest/download/hsemulator-linux \
          -o hsemulator
          chmod +x hsemulator

      - name: Run tests
        run: ./hsemulator test

      - name: Promote
        if: success()
        run: ./hsemulator promote production
        env:
          HUBSPOT_TOKEN: ${{ secrets.HUBSPOT_TOKEN }}
"#;

/// The `cicd.yaml` template for a platform runtime code.
pub fn default_cicd_yaml(runtime: &str) -> (r: String)
    ensures
        r@ == CICD_YAML_HEAD@ + runtime@ + CICD_YAML_TAIL@,
{
    let mut out: Vec<char> = Vec::new();
    push_str(&mut out, CICD_YAML_HEAD);
    push_str(&mut out, runtime);
    push_str(&mut out, CICD_YAML_TAIL);
    string_of(&out)
}

/// The GitHub Actions workflow template that tests and promotes on pushes to `branch`.
pub fn default_github_action(branch: &str) -> (r: String)
    ensures
        r@ == WORKFLOW_HEAD@ + branch@ + WORKFLOW_TAIL@,
{
    let mut out: Vec<char> = Vec::new();
    push_str(&mut out, WORKFLOW_HEAD);
    push_str(&mut out, branch);
    push_str(&mut out, WORKFLOW_TAIL);
    string_of(&out)
}

/// The platform runtime code for a language: `js` runs on `NODE20X`, `python` on `PYTHON39`.
pub open spec fn runtime_code(runtime: Seq<char>) -> Option<Seq<char>> {
    if runtime == "js"@ {
        Some("NODE20X"@)
    } else if runtime == "python"@ {
        Some("PYTHON39"@)
    } else {
        None
    }
}

/// Decides the CI/CD files to write: `--branch` needs the workflow kind; the runtime must be `js`
/// or `python`; the workflow triggers on `main` unless a branch is given.
/// What an init request yields: the branch flag needs the workflow kind, the runtime must be known,
/// and the files follow the templates.
pub open spec fn init_outcome(kind: Option<CicdInitKind>, runtime: Seq<char>, branch: Option<String>, r: Result<CicdFiles, CicdError>) -> bool {
    &&& (branch is Some && kind is None ==> r matches Err(CicdError::BranchWithoutAction))
    &&& (!(branch is Some && kind is None) ==> match runtime_code(runtime) {
        None => r matches Err(CicdError::UnsupportedRuntime { runtime: rt }) && rt@ == runtime,
        Some(code) => r matches Ok(files) && files.cicd_yaml@ == CICD_YAML_HEAD@ + code + CICD_YAML_TAIL@
            && (kind is Some ==> (files.github_workflow matches Some(w) && w@
            == WORKFLOW_HEAD@ + (match branch {
                Some(b) => b@,
                None => "main"@,
            }) + WORKFLOW_TAIL@)) && (kind is None ==> files.github_workflow is None),
    })
}

pub fn init(kind: Option<CicdInitKind>, runtime: &str, branch: Option<String>) -> (r: Result<CicdFiles, CicdError>)
    ensures
        init_outcome(kind, runtime@, branch, r),
{
    let is_action = match kind {
        Some(CicdInitKind::Action) => true,
        None => false,
    };
    if branch.is_some() && !is_action {
        return Err(CicdError::BranchWithoutAction);
    }
    let rv = crate::text::chars_of(runtime);
    let code: &str = if crate::run::is_word(&rv, "js") {
        "NODE20X"
    } else if crate::run::is_word(&rv, "python") {
        "PYTHON39"
    } else {
        return Err(CicdError::UnsupportedRuntime { runtime: runtime.to_owned() });
    };
    let cicd_yaml = default_cicd_yaml(code);
    let github_workflow = if is_action {
        let b = match branch {
            Some(b) => b,
            None => "main".to_owned(),
        };
        Some(default_github_action(b.as_str()))
    } else {
        None
    };
    Ok(CicdFiles { cicd_yaml, github_workflow })
}

/// Entry point of the CI/CD commands: the files to write.
pub fn handle(command: CicdCommand) -> (r: Result<CicdFiles, CicdError>)
    ensures
        match command {
            CicdCommand::Init { runtime, kind, branch } => init_outcome(kind, runtime@, branch, r),
        },
{
    match command {
        CicdCommand::Init { runtime, kind, branch } => init(kind, runtime.as_str(), branch),
    }
}

} // verus!
