use vstd::prelude::*;
use crate::budget::Budgets;
use crate::checks::{Assertion, regex_compiles, regex_is_valid};
use crate::engine::ValidationResult;
use crate::paths::extension;
use crate::run::ascii_lower;
use crate::text::{chars_of, string_of};

verus! {

/// Language of an action.
#[derive(PartialEq, Eq, Structural)]
pub enum ActionType {
    Js,
    Python,
}

/// The action under test.
pub struct Action {
    pub action_type: ActionType,
    /// Path to the action file.
    pub entry: String,
}

pub struct SnapshotConfig {
    pub enabled: bool,
    /// Paths to ignore when comparing snapshots.
    pub ignore: Vec<String>,
}

#[derive(PartialEq, Eq, Structural)]
pub enum OutputMode {
    Stdout,
    Pretty,
    Simple,
    File,
}

pub struct OutputConfig {
    pub mode: OutputMode,
    /// Only used when mode is `File`.
    pub file: Option<String>,
}

/// Runtime binaries.
pub struct Runtime {
    pub node: String,
    pub python: String,
}

#[derive(PartialEq, Eq, Structural)]
pub enum Mode {
    Normal,
    Ci,
}

/// A resolved configuration.
pub struct Config {
    pub action: Option<Action>,
    pub fixtures: Vec<String>,
    pub env: Vec<(String, String)>,
    pub runtime: Runtime,
    pub budgets: Option<Budgets>,
    /// Assertions by path, in key order.
    pub assertions: Vec<(String, Assertion)>,
    pub assertions_file: Option<String>,
    pub snapshots: SnapshotConfig,
    pub output: OutputConfig,
    pub watch: bool,
    pub repeat: u32,
    pub mode: Mode,
}

pub fn default_output_mode() -> (r: OutputMode)
    ensures
        r == OutputMode::Simple,
{
    OutputMode::Simple
}

pub fn default_node() -> (r: String)
    ensures
        r@ == "node"@,
{
    "node".to_owned()
}

pub fn default_python() -> (r: String)
    ensures
        r@ == "python3"@,
{
    "python3".to_owned()
}

pub fn default_repeat() -> (r: u32)
    ensures
        r == 1,
{
    1
}

impl Default for OutputConfig {
    fn default() -> (r: OutputConfig)
        ensures
            r.mode == OutputMode::Simple,
            r.file is None,
    {
        OutputConfig { mode: default_output_mode(), file: None }
    }
}

impl Default for Runtime {
    fn default() -> (r: Runtime)
        ensures
            r.node@ == "node"@,
            r.python@ == "python3"@,
    {
        Runtime { node: default_node(), python: default_python() }
    }
}

impl Default for Mode {
    fn default() -> (r: Mode)
        ensures
            r == Mode::Normal,
    {
        Mode::Normal
    }
}

/// What the file system says about the files a configuration names.
pub struct FixtureFacts {
    pub exists: bool,
    pub readable: bool,
    pub valid_json: bool,
}

pub struct FileFacts {
    pub entry_exists: bool,
    pub entry_is_file: bool,
    /// One entry per configured fixture, in order.
    pub fixtures: Vec<FixtureFacts>,
}

/// The first rule a configuration breaks.
#[derive(PartialEq, Eq, Structural)]
pub enum ConfigProblem {
    MissingAction,
    MissingEntry,
    TypeMismatch,
    EntryNotFound,
    NoFixtures,
    EmptyFixturePath { index: usize },
    FixtureNotFound { index: usize },
    FixtureUnreadable { index: usize },
    FixtureInvalidJson { index: usize },
    RepeatZero,
    NodeRuntimeMissing,
    PythonRuntimeMissing,
    OutputFileMissing,
    BudgetDurationZero,
    BudgetMemoryZero,
    EmptyAssertionKey { index: usize },
    EmptyRegex { index: usize },
    InvalidRegex { index: usize },
    DualAssertionSources,
}

/// Whitespace as `char::is_whitespace` has it (Unicode `White_Space`).
pub open spec fn is_ws(c: char) -> bool {
    let u = c as u32;
    (0x9 <= u && u <= 0xd) || u == 0x20 || u == 0x85 || u == 0xa0 || u == 0x1680 || (0x2000 <= u
        && u <= 0x200a) || u == 0x2028 || u == 0x2029 || u == 0x202f || u == 0x205f || u == 0x3000
}

/// Nothing but whitespace: empty once trimmed.
pub open spec fn is_blank(s: Seq<char>) -> bool {
    forall|i: int| 0 <= i < s.len() ==> is_ws(#[trigger] s[i])
}

pub fn blank(s: &str) -> (r: bool)
    ensures
        r == is_blank(s@),
{
    let v = chars_of(s);
    let mut i: usize = 0;
    while i < v.len()
        invariant
            i <= v.len(),
            v@ == s@,
            forall|k: int| 0 <= k < i ==> is_ws(#[trigger] v@[k]),
        decreases v.len() - i,
    {
        let u = v[i] as u32;
        if !((0x9 <= u && u <= 0xd) || u == 0x20 || u == 0x85 || u == 0xa0 || u == 0x1680 || (0x2000
            <= u && u <= 0x200a) || u == 0x2028 || u == 0x2029 || u == 0x202f || u == 0x205f || u
            == 0x3000) {
            return false;
        }
        i = i + 1;
    }
    true
}

/// `s` with leading and trailing whitespace removed.
pub open spec fn trim_both(s: Seq<char>) -> Seq<char> {
    let a = first_non_ws(s, 0);
    let b = last_non_ws_end(s, s.len() as int);
    if a >= b {
        Seq::empty()
    } else {
        s.subrange(a, b)
    }
}

pub open spec fn first_non_ws(s: Seq<char>, i: int) -> int
    decreases s.len() - i,
{
    if i < 0 || i >= s.len() {
        s.len() as int
    } else if is_ws(s[i]) {
        first_non_ws(s, i + 1)
    } else {
        i
    }
}

pub open spec fn last_non_ws_end(s: Seq<char>, n: int) -> int
    decreases n,
{
    if n <= 0 || n > s.len() {
        0
    } else if is_ws(s[n - 1]) {
        last_non_ws_end(s, n - 1)
    } else {
        n
    }
}

/// Whether the entry's extension fits the action's declared type.
pub open spec fn extension_fits(t: ActionType, entry: Seq<char>) -> bool {
    let e = ascii_lower(
        match extension(entry) {
            Some(e) => e,
            None => Seq::empty(),
        },
    );
    match t {
        ActionType::Js => e == seq!['j', 's'] || e == seq!['m', 'j', 's'] || e == seq!['c', 'j', 's'],
        ActionType::Python => e == seq!['p', 'y'],
    }
}

/// The first fixture rule broken among the first `n` fixtures.
pub open spec fn fixture_problem(fixtures: Seq<String>, facts: Seq<FixtureFacts>, n: int) -> Option<ConfigProblem>
    decreases n,
{
    if n <= 0 || n > fixtures.len() {
        None
    } else {
        match fixture_problem(fixtures, facts, n - 1) {
            Some(p) => Some(p),
            None => {
                let i = n - 1;
                if is_blank(fixtures[i]@) {
                    Some(ConfigProblem::EmptyFixturePath { index: i as usize })
                } else if !facts[i].exists {
                    Some(ConfigProblem::FixtureNotFound { index: i as usize })
                } else if !facts[i].readable {
                    Some(ConfigProblem::FixtureUnreadable { index: i as usize })
                } else if !facts[i].valid_json {
                    Some(ConfigProblem::FixtureInvalidJson { index: i as usize })
                } else {
                    None
                }
            },
        }
    }
}

/// The first assertion rule broken among the first `n` assertions: keys must not be blank, and a
/// regex must be a non-blank pattern that compiles once trimmed.
pub open spec fn assertion_problem(assertions: Seq<(String, Assertion)>, n: int) -> Option<ConfigProblem>
    decreases n,
{
    if n <= 0 || n > assertions.len() {
        None
    } else {
        match assertion_problem(assertions, n - 1) {
            Some(p) => Some(p),
            None => {
                let i = n - 1;
                if is_blank(assertions[i].0@) {
                    Some(ConfigProblem::EmptyAssertionKey { index: i as usize })
                } else {
                    match assertions[i].1 {
                        Assertion::Regex(p) => if is_blank(p@) {
                            Some(ConfigProblem::EmptyRegex { index: i as usize })
                        } else if !regex_compiles(trim_both(p@)) {
                            Some(ConfigProblem::InvalidRegex { index: i as usize })
                        } else {
                            None
                        },
                        _ => None,
                    }
                }
            },
        }
    }
}

/// The first rule that a configuration breaks, in the order the rules are checked.
pub open spec fn config_problem(cfg: Config, facts: FileFacts) -> Option<ConfigProblem> {
    match cfg.action {
        None => Some(ConfigProblem::MissingAction),
        Some(action) => if is_blank(action.entry@) {
            Some(ConfigProblem::MissingEntry)
        } else if !extension_fits(action.action_type, trim_both(action.entry@)) {
            Some(ConfigProblem::TypeMismatch)
        } else if !facts.entry_exists {
            Some(ConfigProblem::EntryNotFound)
        } else if cfg.fixtures@.len() == 0 {
            Some(ConfigProblem::NoFixtures)
        } else if fixture_problem(cfg.fixtures@, facts.fixtures@, cfg.fixtures@.len() as int) is Some {
            fixture_problem(cfg.fixtures@, facts.fixtures@, cfg.fixtures@.len() as int)
        } else if cfg.repeat == 0 {
            Some(ConfigProblem::RepeatZero)
        } else if is_blank(cfg.runtime.node@) {
            Some(ConfigProblem::NodeRuntimeMissing)
        } else if is_blank(cfg.runtime.python@) {
            Some(ConfigProblem::PythonRuntimeMissing)
        } else if cfg.output.mode == OutputMode::File && (match cfg.output.file {
            Some(f) => is_blank(f@),
            None => true,
        }) {
            Some(ConfigProblem::OutputFileMissing)
        } else if cfg.budgets matches Some(b) && b.duration_ms == Some(0u64) {
            Some(ConfigProblem::BudgetDurationZero)
        } else if cfg.budgets matches Some(b) && b.memory_mb == Some(0u64) {
            Some(ConfigProblem::BudgetMemoryZero)
        } else if assertion_problem(cfg.assertions@, cfg.assertions@.len() as int) is Some {
            assertion_problem(cfg.assertions@, cfg.assertions@.len() as int)
        } else if cfg.assertions_file is Some && cfg.assertions@.len() > 0 {
            Some(ConfigProblem::DualAssertionSources)
        } else {
            None
        },
    }
}

/// `s` with leading and trailing whitespace removed.
pub fn trimmed(s: &str) -> (r: String)
    ensures
        r@ == trim_both(s@),
{
    let v = chars_of(s);
    let mut a: usize = 0;
    while a < v.len() && is_ws_exec(v[a])
        invariant
            a <= v.len(),
            v@ == s@,
            first_non_ws(v@, 0) == first_non_ws(v@, a as int),
        decreases v.len() - a,
    {
        a = a + 1;
    }
    let mut b: usize = v.len();
    while b > 0 && is_ws_exec(v[b - 1])
        invariant
            b <= v.len(),
            v@ == s@,
            last_non_ws_end(v@, v.len() as int) == last_non_ws_end(v@, b as int),
        decreases b,
    {
        b = b - 1;
    }
    let mut out: Vec<char> = Vec::new();
    if a < b {
        let mut i: usize = a;
        while i < b
            invariant
                a <= i <= b <= v.len(),
                out@ == v@.subrange(a as int, i as int),
            decreases b - i,
        {
            out.push(v[i]);
            i = i + 1;
            assert(out@ =~= v@.subrange(a as int, i as int));
        }
    }
    assert(out@ =~= trim_both(s@));
    string_of(&out)
}

pub(crate) fn is_ws_exec(c: char) -> (r: bool)
    ensures
        r == is_ws(c),
{
    let u = c as u32;
    (0x9 <= u && u <= 0xd) || u == 0x20 || u == 0x85 || u == 0xa0 || u == 0x1680 || (0x2000 <= u
        && u <= 0x200a) || u == 0x2028 || u == 0x2029 || u == 0x202f || u == 0x205f || u == 0x3000
}

fn fits_exec(t: &ActionType, entry: &str) -> (r: bool)
    ensures
        r == extension_fits(*t, entry@),
{
    let p = chars_of(entry);
    let raw = match crate::paths::extension_of_path(&p) {
        Some(e) => e,
        None => Vec::new(),
    };
    let e = crate::run::lower_vec(&raw);
    proof {
        reveal_strlit("py");
        reveal_strlit("js");
        reveal_strlit("mjs");
        reveal_strlit("cjs");
        assert("py"@ =~= seq!['p', 'y']);
        assert("js"@ =~= seq!['j', 's']);
        assert("mjs"@ =~= seq!['m', 'j', 's']);
        assert("cjs"@ =~= seq!['c', 'j', 's']);
    }
    match t {
        ActionType::Js => crate::run::is_word(&e, "js") || crate::run::is_word(&e, "mjs")
            || crate::run::is_word(&e, "cjs"),
        ActionType::Python => crate::run::is_word(&e, "py"),
    }
}

impl Config {
    /// Checks the configuration rules in order and reports the first one broken.
    pub fn validate(&self, facts: &FileFacts) -> (r: Result<(), ConfigProblem>)
        requires
            facts.fixtures@.len() == self.fixtures@.len(),
        ensures
            match config_problem(*self, *facts) {
                None => r is Ok,
                Some(p) => r == Err::<(), ConfigProblem>(p),
            },
    {
        let action = match &self.action {
            None => {
                return Err(ConfigProblem::MissingAction);
            },
            Some(a) => a,
        };
        if blank(action.entry.as_str()) {
            return Err(ConfigProblem::MissingEntry);
        }
        let entry = trimmed(action.entry.as_str());
        if !fits_exec(&action.action_type, entry.as_str()) {
            return Err(ConfigProblem::TypeMismatch);
        }
        if !facts.entry_exists {
            return Err(ConfigProblem::EntryNotFound);
        }
        if self.fixtures.len() == 0 {
            return Err(ConfigProblem::NoFixtures);
        }
        let mut i: usize = 0;
        while i < self.fixtures.len()
            invariant
                i <= self.fixtures.len(),
                facts.fixtures@.len() == self.fixtures@.len(),
                fixture_problem(self.fixtures@, facts.fixtures@, i as int) is None,
                fixture_problem(self.fixtures@, facts.fixtures@, self.fixtures@.len() as int) is Some
                    ==> config_problem(*self, *facts) == fixture_problem(
                    self.fixtures@,
                    facts.fixtures@,
                    self.fixtures@.len() as int,
                ),
            decreases self.fixtures.len() - i,
        {
            let problem = if blank(self.fixtures[i].as_str()) {
                Some(ConfigProblem::EmptyFixturePath { index: i })
            } else if !facts.fixtures[i].exists {
                Some(ConfigProblem::FixtureNotFound { index: i })
            } else if !facts.fixtures[i].readable {
                Some(ConfigProblem::FixtureUnreadable { index: i })
            } else if !facts.fixtures[i].valid_json {
                Some(ConfigProblem::FixtureInvalidJson { index: i })
            } else {
                None
            };
            if let Some(p) = problem {
                proof {
                    lemma_fixture_problem_stays(self.fixtures@, facts.fixtures@, i as int + 1, self.fixtures@.len() as int);
                }
                return Err(p);
            }
            i = i + 1;
        }
        if self.repeat == 0 {
            return Err(ConfigProblem::RepeatZero);
        }
        if blank(self.runtime.node.as_str()) {
            return Err(ConfigProblem::NodeRuntimeMissing);
        }
        if blank(self.runtime.python.as_str()) {
            return Err(ConfigProblem::PythonRuntimeMissing);
        }
        if self.output.mode == OutputMode::File {
            let missing = match &self.output.file {
                Some(f) => blank(f.as_str()),
                None => true,
            };
            if missing {
                return Err(ConfigProblem::OutputFileMissing);
            }
        }
        if let Some(b) = &self.budgets {
            if b.duration_ms == Some(0u64) {
                return Err(ConfigProblem::BudgetDurationZero);
            }
            if b.memory_mb == Some(0u64) {
                return Err(ConfigProblem::BudgetMemoryZero);
            }
        }
        let mut k: usize = 0;
        while k < self.assertions.len()
            invariant
                k <= self.assertions.len(),
                assertion_problem(self.assertions@, k as int) is None,
                assertion_problem(self.assertions@, self.assertions@.len() as int) is Some
                    ==> config_problem(*self, *facts) == assertion_problem(
                    self.assertions@,
                    self.assertions@.len() as int,
                ),
            decreases self.assertions.len() - k,
        {
            let problem = if blank(self.assertions[k].0.as_str()) {
                Some(ConfigProblem::EmptyAssertionKey { index: k })
            } else {
                match &self.assertions[k].1 {
                    Assertion::Regex(p) => {
                        if blank(p.as_str()) {
                            Some(ConfigProblem::EmptyRegex { index: k })
                        } else {
                            let pat = trimmed(p.as_str());
                            if !regex_is_valid(pat.as_str()) {
                                Some(ConfigProblem::InvalidRegex { index: k })
                            } else {
                                None
                            }
                        }
                    },
                    _ => None,
                }
            };
            if let Some(p) = problem {
                proof {
                    lemma_assertion_problem_stays(self.assertions@, k as int + 1, self.assertions@.len() as int);
                }
                return Err(p);
            }
            k = k + 1;
        }
        if self.assertions_file.is_some() && self.assertions.len() > 0 {
            return Err(ConfigProblem::DualAssertionSources);
        }
        Ok(())
    }
}

proof fn lemma_fixture_problem_stays(fixtures: Seq<String>, facts: Seq<FixtureFacts>, n: int, m: int)
    requires
        0 < n <= m <= fixtures.len(),
        fixture_problem(fixtures, facts, n) is Some,
    ensures
        fixture_problem(fixtures, facts, m) == fixture_problem(fixtures, facts, n),
    decreases m - n,
{
    if m > n {
        lemma_fixture_problem_stays(fixtures, facts, n, m - 1);
    }
}

proof fn lemma_assertion_problem_stays(assertions: Seq<(String, Assertion)>, n: int, m: int)
    requires
        0 < n <= m <= assertions.len(),
        assertion_problem(assertions, n) is Some,
    ensures
        assertion_problem(assertions, m) == assertion_problem(assertions, n),
    decreases m - n,
{
    if m > n {
        lemma_assertion_problem_stays(assertions, n, m - 1);
    }
}

/// Extension of the action entry as written (no case folding), or empty.
pub open spec fn raw_ext(entry: Seq<char>) -> Seq<char> {
    match extension(entry) {
        Some(e) => e,
        None => Seq::empty(),
    }
}

pub open spec fn is_js_ext(e: Seq<char>) -> bool {
    e == "js"@ || e == "mjs"@ || e == "cjs"@
}

/// Codes of the action checks.
pub open spec fn action_codes(cfg: Config, facts: FileFacts) -> Seq<Seq<char>> {
    match cfg.action {
        None => seq!["ACTION_MISSING"@],
        Some(a) => if !facts.entry_exists {
            seq!["ACTION_NOT_FOUND"@]
        } else {
            (if !facts.entry_is_file {
                seq!["ACTION_NOT_FILE"@]
            } else {
                Seq::empty()
            }) + (if is_js_ext(raw_ext(a.entry@)) || raw_ext(a.entry@) == "py"@ {
                Seq::empty()
            } else {
                seq!["ACTION_UNSUPPORTED_TYPE"@]
            })
        },
    }
}

/// Codes of the checks on the first `n` fixtures.
pub open spec fn fixture_codes(facts: Seq<FixtureFacts>, n: int) -> Seq<Seq<char>>
    decreases n,
{
    if n <= 0 || n > facts.len() {
        Seq::empty()
    } else {
        let f = facts[n - 1];
        fixture_codes(facts, n - 1) + (if !f.exists {
            seq!["FIXTURE_NOT_FOUND"@]
        } else if !f.readable {
            seq!["FIXTURE_READ_FAILED"@]
        } else if !f.valid_json {
            seq!["FIXTURE_INVALID_JSON"@]
        } else {
            Seq::empty()
        })
    }
}

pub open spec fn runtime_codes(cfg: Config) -> Seq<Seq<char>> {
    match cfg.action {
        None => Seq::empty(),
        Some(a) => if raw_ext(a.entry@) == "py"@ && is_blank(cfg.runtime.python@) {
            seq!["RUNTIME_PYTHON_MISSING"@]
        } else if is_js_ext(raw_ext(a.entry@)) && is_blank(cfg.runtime.node@) {
            seq!["RUNTIME_NODE_MISSING"@]
        } else {
            Seq::empty()
        },
    }
}

pub open spec fn budget_codes(cfg: Config) -> Seq<Seq<char>> {
    match cfg.budgets {
        None => Seq::empty(),
        Some(b) => (if b.duration_ms == Some(0u64) {
            seq!["BUDGET_DURATION_INVALID"@]
        } else {
            Seq::empty()
        }) + (if b.memory_mb == Some(0u64) {
            seq!["BUDGET_MEMORY_INVALID"@]
        } else {
            Seq::empty()
        }),
    }
}

/// Every problem code of a configuration, in the order the checks run: action, fixtures, runtime,
/// budgets.
pub open spec fn validation_codes(cfg: Config, facts: FileFacts) -> Seq<Seq<char>> {
    action_codes(cfg, facts) + (if cfg.fixtures@.len() == 0 {
        seq!["FIXTURES_EMPTY"@]
    } else {
        fixture_codes(facts.fixtures@, facts.fixtures@.len() as int)
    }) + runtime_codes(cfg) + budget_codes(cfg)
}

fn record_problem(result: &mut ValidationResult, code: &str, parts: &Vec<&str>)
    ensures
        final(result).codes() == old(result).codes().push(code@),
        !final(result).valid,
        final(result).errors@.len() == final(result).codes().len(),
{
    let mut t: Vec<char> = Vec::new();
    let mut i: usize = 0;
    while i < parts.len()
        invariant
            i <= parts.len(),
        decreases parts.len() - i,
    {
        crate::text::push_str(&mut t, parts[i]);
        i = i + 1;
    }
    let ghost before = result.codes();
    result.push_error(code, string_of(&t));
    assert(result.codes() =~= before.push(code@));
}

fn validate_action(cfg: &Config, facts: &FileFacts, result: &mut ValidationResult) -> (ext: Vec<char>)
    ensures
        final(result).codes() == old(result).codes() + action_codes(*cfg, *facts),
        final(result).valid == (old(result).valid && action_codes(*cfg, *facts).len() == 0),
        cfg.action matches Some(a) ==> ext@ == raw_ext(a.entry@),
{
    let ghost start = result.codes();
    match &cfg.action {
        None => {
            record_problem(result, "ACTION_MISSING", &vec!["No action defined in config"]);
            assert(result.codes() =~= start + action_codes(*cfg, *facts));
            Vec::new()
        },
        Some(a) => {
            let p = chars_of(a.entry.as_str());
            let e = match crate::paths::extension_of_path(&p) {
                Some(e) => e,
                None => Vec::new(),
            };
            if !facts.entry_exists {
                record_problem(result, "ACTION_NOT_FOUND", &vec!["Action entry does not exist: ", a.entry.as_str()]);
            } else {
                if !facts.entry_is_file {
                    record_problem(result, "ACTION_NOT_FILE", &vec!["Action entry is not a file: ", a.entry.as_str()]);
                }
                let es = string_of(&e);
                if !(crate::run::is_word(&e, "js") || crate::run::is_word(&e, "mjs") || crate::run::is_word(&e, "cjs")
                    || crate::run::is_word(&e, "py")) {
                    record_problem(result, "ACTION_UNSUPPORTED_TYPE", &vec!["Unsupported action file extension: .", es.as_str()]);
                }
            }
            assert(result.codes() =~= start + action_codes(*cfg, *facts));
            e
        },
    }
}

fn validate_fixtures(cfg: &Config, facts: &FileFacts, result: &mut ValidationResult)
    requires
        facts.fixtures@.len() == cfg.fixtures@.len(),
    ensures
        final(result).codes() == old(result).codes() + (if cfg.fixtures@.len() == 0 {
            seq!["FIXTURES_EMPTY"@]
        } else {
            fixture_codes(facts.fixtures@, facts.fixtures@.len() as int)
        }),
        final(result).valid == (old(result).valid && final(result).codes().len() == old(result).codes().len()),
{
    let ghost start = result.codes();
    let ghost v0 = result.valid;
    if cfg.fixtures.len() == 0 {
        record_problem(result, "FIXTURES_EMPTY", &vec!["At least one fixture must be provided"]);
        assert(result.codes() =~= start + seq!["FIXTURES_EMPTY"@]);
    } else {
        let mut i: usize = 0;
        assert(start + fixture_codes(facts.fixtures@, 0) =~= start);
        while i < cfg.fixtures.len()
            invariant
                i <= cfg.fixtures.len(),
                facts.fixtures@.len() == cfg.fixtures@.len(),
                result.codes() == start + fixture_codes(facts.fixtures@, i as int),
                result.valid == (v0 && result.codes().len() == start.len()),
            decreases cfg.fixtures.len() - i,
        {
            let path = cfg.fixtures[i].as_str();
            let f = &facts.fixtures[i];
            if !f.exists {
                record_problem(result, "FIXTURE_NOT_FOUND", &vec!["Fixture not found: ", path]);
            } else if !f.readable {
                record_problem(result, "FIXTURE_READ_FAILED", &vec!["Failed to read ", path]);
            } else if !f.valid_json {
                record_problem(result, "FIXTURE_INVALID_JSON", &vec!["Fixture is not valid JSON: ", path]);
            }
            i = i + 1;
            assert(result.codes() =~= start + fixture_codes(facts.fixtures@, i as int));
        }
    }
}

fn validate_runtime(cfg: &Config, ext: &Vec<char>, result: &mut ValidationResult)
    requires
        cfg.action matches Some(a) ==> ext@ == raw_ext(a.entry@),
    ensures
        final(result).codes() == old(result).codes() + runtime_codes(*cfg),
        final(result).valid == (old(result).valid && runtime_codes(*cfg).len() == 0),
{
    let ghost start = result.codes();
    match &cfg.action {
        None => {},
        Some(_) => {
            if crate::run::is_word(ext, "py") {
                if blank(cfg.runtime.python.as_str()) {
                    record_problem(result, "RUNTIME_PYTHON_MISSING", &vec!["Python runtime is not configured"]);
                }
            } else if crate::run::is_word(ext, "js") || crate::run::is_word(ext, "mjs") || crate::run::is_word(ext, "cjs") {
                if blank(cfg.runtime.node.as_str()) {
                    record_problem(result, "RUNTIME_NODE_MISSING", &vec!["Node runtime is not configured"]);
                }
            }
        },
    }
    proof {
        reveal_strlit("py");
        reveal_strlit("js");
        reveal_strlit("mjs");
        reveal_strlit("cjs");
        assert("py"@ != "js"@ && "py"@ != "mjs"@ && "py"@ != "cjs"@) by {
            assert("py"@[0] != "js"@[0]);
            assert("py"@.len() != "mjs"@.len());
        }
    }
    assert(result.codes() =~= start + runtime_codes(*cfg));
}

fn validate_budgets(cfg: &Config, result: &mut ValidationResult)
    ensures
        final(result).codes() == old(result).codes() + budget_codes(*cfg),
        final(result).valid == (old(result).valid && budget_codes(*cfg).len() == 0),
{
    let ghost start = result.codes();
    if let Some(b) = &cfg.budgets {
        if b.duration_ms == Some(0u64) {
            record_problem(result, "BUDGET_DURATION_INVALID", &vec!["duration_ms must be greater than zero"]);
        }
        if b.memory_mb == Some(0u64) {
            record_problem(result, "BUDGET_MEMORY_INVALID", &vec!["memory_mb must be greater than zero"]);
        }
    }
    assert(result.codes() =~= start + budget_codes(*cfg));
}

/// Runs every configuration check and collects all problems, each with a code and a message.
pub fn validate_config(cfg: &Config, facts: &FileFacts) -> (r: ValidationResult)
    requires
        facts.fixtures@.len() == cfg.fixtures@.len(),
    ensures
        r.codes() == validation_codes(*cfg, *facts),
        r.valid == (validation_codes(*cfg, *facts).len() == 0),
{
    let mut result = ValidationResult::ok();
    assert(result.codes() =~= Seq::<Seq<char>>::empty());
    let ext = validate_action(cfg, facts, &mut result);
    validate_fixtures(cfg, facts, &mut result);
    validate_runtime(cfg, &ext, &mut result);
    validate_budgets(cfg, &mut result);
    assert(result.codes() =~= validation_codes(*cfg, *facts));
    result
}
} // verus!
