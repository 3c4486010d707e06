use vstd::prelude::*;
use crate::config::{is_blank, blank};
use crate::json::{JsonSpec, JsonValue, obj_get};
use crate::text::chars_of;

verus! {

/// How the target action is found in the workflow.
pub struct CicdSelector {
    pub selector_type: String,
    pub value: String,
    pub require_unique: Option<bool>,
}

/// Gates that a promotion must pass unless forced.
pub struct CicdSafety {
    pub require_clean_tests: Option<bool>,
    pub require_snapshot_match: Option<bool>,
    pub max_duration_ms: Option<u64>,
    pub max_memory_mb: Option<u64>,
}

pub struct CicdDeploy {
    pub mode: Option<String>,
    pub dry_run: Option<bool>,
}

/// One promotion target.
pub struct CicdTarget {
    pub workflow_id: String,
    pub selector: CicdSelector,
    pub runtime: Option<String>,
    pub safety: Option<CicdSafety>,
    pub deploy: Option<CicdDeploy>,
    pub portal: Option<String>,
}

/// The record of the last test run.
pub struct LastTestResult {
    pub ok: bool,
    pub snapshots_ok: bool,
    pub max_duration_ms: Option<u128>,
    pub max_memory_kb: Option<u64>,
    pub run_at: String,
}

/// Why a promotion was refused.
#[derive(PartialEq, Eq, Structural)]
pub enum PromoteError {
    WorkflowIdMissing,
    SelectorMissing,
    UnsupportedSelector,
    TestsFailed,
    SnapshotsFailed,
    DurationExceeded { actual_ms: u128, max_ms: u64 },
    MemoryExceeded { actual_kb: u64, max_mb: u64 },
    ActionsMissing,
    NoMatchingAction,
    NotUnique { count: usize, require_unique: bool },
    IndexOutOfBounds,
    SourceMissing,
    ActionNotObject,
    RequiredFieldMissing { field: usize },
}

/// The first rule a target breaks: a workflow id and a `secret` selector with a value are needed.
pub open spec fn target_problem(t: CicdTarget) -> Option<PromoteError> {
    if is_blank(t.workflow_id@) {
        Some(PromoteError::WorkflowIdMissing)
    } else if is_blank(t.selector.selector_type@) || is_blank(t.selector.value@) {
        Some(PromoteError::SelectorMissing)
    } else if t.selector.selector_type@ != "secret"@ {
        Some(PromoteError::UnsupportedSelector)
    } else {
        None
    }
}

/// Checks what every promotion needs, forced or not.
pub fn validate_target_minimum(t: &CicdTarget, force: bool) -> (r: Result<(), PromoteError>)
    ensures
        match target_problem(*t) {
            None => r is Ok,
            Some(e) => r == Err::<(), PromoteError>(e),
        },
{
    if blank(t.workflow_id.as_str()) {
        return Err(PromoteError::WorkflowIdMissing);
    }
    if blank(t.selector.selector_type.as_str()) || blank(t.selector.value.as_str()) {
        return Err(PromoteError::SelectorMissing);
    }
    let st = chars_of(t.selector.selector_type.as_str());
    if !crate::run::is_word(&st, "secret") {
        return Err(PromoteError::UnsupportedSelector);
    }
    Ok(())
}

/// The first safety gate that the last test run fails. Clean tests and matching snapshots are
/// required unless the target turns them off; duration and memory ceilings apply when both the
/// ceiling and the measurement exist, memory compared in kilobytes (`mb * 1024`).
pub open spec fn gate_problem(last: LastTestResult, t: CicdTarget) -> Option<PromoteError> {
    let require_clean = match t.safety {
        Some(s) => match s.require_clean_tests {
            Some(b) => b,
            None => true,
        },
        None => true,
    };
    let require_snapshots = match t.safety {
        Some(s) => match s.require_snapshot_match {
            Some(b) => b,
            None => true,
        },
        None => true,
    };
    if require_clean && !last.ok {
        Some(PromoteError::TestsFailed)
    } else if require_snapshots && !last.snapshots_ok {
        Some(PromoteError::SnapshotsFailed)
    } else if t.safety matches Some(s) && s.max_duration_ms matches Some(max) && last.max_duration_ms matches Some(actual)
        && actual > max as u128 {
        Some(PromoteError::DurationExceeded { actual_ms: last.max_duration_ms->0, max_ms: t.safety->0.max_duration_ms->0 })
    } else if t.safety matches Some(s) && s.max_memory_mb matches Some(max) && last.max_memory_kb matches Some(actual)
        && actual > max * 1024 {
        Some(PromoteError::MemoryExceeded { actual_kb: last.max_memory_kb->0, max_mb: t.safety->0.max_memory_mb->0 })
    } else {
        None
    }
}

/// Enforces the target's safety gates on the last test run.
pub fn enforce_last_test(last: &LastTestResult, t: &CicdTarget) -> (r: Result<(), PromoteError>)
    ensures
        match gate_problem(*last, *t) {
            None => r is Ok,
            Some(e) => r == Err::<(), PromoteError>(e),
        },
{
    let require_clean = match &t.safety {
        Some(s) => match s.require_clean_tests {
            Some(b) => b,
            None => true,
        },
        None => true,
    };
    let require_snapshots = match &t.safety {
        Some(s) => match s.require_snapshot_match {
            Some(b) => b,
            None => true,
        },
        None => true,
    };
    if require_clean && !last.ok {
        return Err(PromoteError::TestsFailed);
    }
    if require_snapshots && !last.snapshots_ok {
        return Err(PromoteError::SnapshotsFailed);
    }
    if let Some(s) = &t.safety {
        if let Some(max_ms) = s.max_duration_ms {
            if let Some(actual) = last.max_duration_ms {
                if actual > max_ms as u128 {
                    return Err(PromoteError::DurationExceeded { actual_ms: actual, max_ms });
                }
            }
        }
        if let Some(max_mb) = s.max_memory_mb {
            if let Some(actual_kb) = last.max_memory_kb {
                if actual_kb as u128 > max_mb as u128 * 1024 {
                    return Err(PromoteError::MemoryExceeded { actual_kb, max_mb });
                }
            }
        }
    }
    Ok(())
}

/// A `CUSTOM_CODE` action.
pub open spec fn is_custom_code(a: JsonSpec) -> bool {
    match a {
        JsonSpec::Object(es) => obj_get(es, "type"@) == Some(JsonSpec::Str("CUSTOM_CODE"@)),
        _ => false,
    }
}

/// An action whose `secretNames` array holds the string `v`.
pub open spec fn has_secret(a: JsonSpec, v: Seq<char>) -> bool {
    match a {
        JsonSpec::Object(es) => match obj_get(es, "secretNames"@) {
            Some(JsonSpec::Array(xs)) => exists|i: int| 0 <= i < xs.len() && xs[i] == JsonSpec::Str(v),
            _ => false,
        },
        _ => false,
    }
}

/// Indices, among the first `n` actions, of the custom code actions that the selector value names.
pub open spec fn matching(actions: Seq<JsonSpec>, v: Seq<char>, n: int) -> Seq<int>
    decreases n,
{
    if n <= 0 || n > actions.len() {
        Seq::empty()
    } else if is_custom_code(actions[n - 1]) && has_secret(actions[n - 1], v) {
        matching(actions, v, n - 1).push(n - 1)
    } else {
        matching(actions, v, n - 1)
    }
}

/// The workflow's `actions` array.
pub open spec fn flow_actions(flow: JsonSpec) -> Option<Seq<JsonSpec>> {
    match flow {
        JsonSpec::Object(es) => match obj_get(es, "actions"@) {
            Some(JsonSpec::Array(xs)) => Some(xs),
            _ => None,
        },
        _ => None,
    }
}

fn is_str(v: Option<&JsonValue>, w: &str) -> (r: bool)
    ensures
        r == (match v {
            Some(x) => x@ == JsonSpec::Str(w@),
            None => false,
        }),
{
    match v {
        Some(JsonValue::Str(s)) => {
            let a = chars_of(s.as_str());
            let b = chars_of(w);
            crate::text::chars_eq(&a, &b)
        },
        _ => false,
    }
}

fn secret_listed(a: &JsonValue, v: &str) -> (r: bool)
    requires
        a.wf(),
    ensures
        r == has_secret(a@, v@),
{
    match a {
        JsonValue::Object(_) => {
            match a.get_key("secretNames") {
                Some(w) => match w {
                    JsonValue::Array(xs) => {
                        let ghost sxs = match w@ {
                            JsonSpec::Array(q) => q,
                            _ => Seq::empty(),
                        };
                        assert(has_secret(a@, v@) == (exists|k: int| 0 <= k < sxs.len() && sxs[k] == JsonSpec::Str(v@)));
                        let mut i: usize = 0;
                        while i < xs.len()
                            invariant
                                i <= xs.len(),
                                w@ == JsonSpec::Array(sxs),
                                has_secret(a@, v@) == (exists|k: int| 0 <= k < sxs.len() && sxs[k] == JsonSpec::Str(v@)),
                                sxs.len() == xs.len(),
                                forall|k: int| 0 <= k < xs.len() ==> (#[trigger] sxs[k]) == xs@[k]@,
                                forall|k: int| 0 <= k < i ==> sxs[k] != JsonSpec::Str(v@),
                            decreases xs.len() - i,
                        {
                            if is_str(Some(&xs[i]), v) {
                                assert(sxs[i as int] == JsonSpec::Str(v@));
                                return true;
                            }
                            i = i + 1;
                        }
                        false
                    },
                    _ => false,
                },
                _ => false,
            }
        },
        _ => false,
    }
}

/// Finds the one custom code action that the selector names.
pub fn find_target_action_index(flow: &JsonValue, selector: &CicdSelector) -> (r: Result<usize, PromoteError>)
    requires
        flow.wf(),
    ensures
        match flow_actions(flow@) {
            None => r == Err::<usize, PromoteError>(PromoteError::ActionsMissing),
            Some(xs) => {
                let m = matching(xs, selector.value@, xs.len() as int);
                if m.len() == 0 {
                    r == Err::<usize, PromoteError>(PromoteError::NoMatchingAction)
                } else if m.len() != 1 {
                    r == Err::<usize, PromoteError>(
                        PromoteError::NotUnique {
                            count: m.len() as usize,
                            require_unique: match selector.require_unique {
                                Some(b) => b,
                                None => true,
                            },
                        },
                    )
                } else {
                    r == Ok::<usize, PromoteError>(m[0] as usize)
                }
            },
        },
{
    let found = flow.get_key("actions");
    let w = match found {
        Some(w) => w,
        None => {
            return Err(PromoteError::ActionsMissing);
        },
    };
    let actions = match w {
        JsonValue::Array(xs) => xs,
        _ => {
            return Err(PromoteError::ActionsMissing);
        },
    };
    let ghost sxs = match w@ {
        JsonSpec::Array(q) => q,
        _ => Seq::empty(),
    };
    assert(flow_actions(flow@) == Some(sxs));
    proof {
        let es = match flow@ {
            JsonSpec::Object(es) => es,
            _ => Seq::empty(),
        };
        assert(flow@.wf());
        crate::json::lemma_obj_get_wf(es, "actions"@);
        assert(w@.wf());
        assert(forall|k: int| 0 <= k < sxs.len() ==> (#[trigger] sxs[k]).wf());
    }
    let mut matches: Vec<usize> = Vec::new();
    let mut i: usize = 0;
    while i < actions.len()
        invariant
            i <= actions.len(),
            sxs.len() == actions.len(),
            forall|k: int| 0 <= k < sxs.len() ==> (#[trigger] sxs[k]).wf(),
            forall|k: int| 0 <= k < actions.len() ==> (#[trigger] sxs[k]) == actions@[k]@,
            matches@.len() == matching(sxs, selector.value@, i as int).len(),
            forall|k: int| 0 <= k < matches@.len() ==> (#[trigger] matches@[k]) as int == matching(
                sxs,
                selector.value@,
                i as int,
            )[k],
            forall|k: int| 0 <= k < matches@.len() ==> (#[trigger] matches@[k]) < i,
        decreases actions.len() - i,
    {
        let a = &actions[i];
        assert(sxs[i as int].wf());
        let custom = is_str(a.get_key("type"), "CUSTOM_CODE");
        let listed = secret_listed(a, selector.value.as_str());
        if custom && listed {
            matches.push(i);
        }
        i = i + 1;
    }
    let require_unique = match selector.require_unique {
        Some(b) => b,
        None => true,
    };
    if matches.len() == 0 {
        return Err(PromoteError::NoMatchingAction);
    }
    if matches.len() != 1 {
        return Err(PromoteError::NotUnique { count: matches.len(), require_unique });
    }
    Ok(matches[0])
}

/// The source code of action `idx`.
pub open spec fn source_code_of(flow: JsonSpec, idx: int) -> Result<Seq<char>, PromoteError> {
    match flow_actions(flow) {
        None => Err(PromoteError::ActionsMissing),
        Some(xs) => if idx >= xs.len() {
            Err(PromoteError::IndexOutOfBounds)
        } else {
            match xs[idx] {
                JsonSpec::Object(es) => match obj_get(es, "sourceCode"@) {
                    Some(JsonSpec::Str(src)) => Ok(src),
                    _ => Err(PromoteError::SourceMissing),
                },
                _ => Err(PromoteError::SourceMissing),
            }
        },
    }
}

/// Looks up the workflow's `actions` array.
fn actions_of(flow: &JsonValue) -> (r: Option<&Vec<JsonValue>>)
    requires
        flow.wf(),
    ensures
        match flow_actions(flow@) {
            None => r is None,
            Some(sxs) => (r matches Some(xs) && xs@.len() == sxs.len() && (forall|k: int|
                0 <= k < sxs.len() ==> (#[trigger] sxs[k]) == xs@[k]@ && sxs[k].wf())),
        },
{
    match flow.get_key("actions") {
        Some(w) => match w {
            JsonValue::Array(xs) => {
                proof {
                    let es = match flow@ {
                        JsonSpec::Object(es) => es,
                        _ => Seq::empty(),
                    };
                    assert(flow@.wf());
                    crate::json::lemma_obj_get_wf(es, "actions"@);
                    assert(w@.wf());
                }
                Some(xs)
            },
            _ => None,
        },
        None => None,
    }
}

/// The source code of the action at `action_index`.
pub fn get_action_source_code(flow: &JsonValue, action_index: usize) -> (r: Result<String, PromoteError>)
    requires
        flow.wf(),
    ensures
        match source_code_of(flow@, action_index as int) {
            Ok(src) => r matches Ok(s) && s@ == src,
            Err(e) => r == Err::<String, PromoteError>(e),
        },
{
    let actions = match actions_of(flow) {
        Some(xs) => xs,
        None => {
            return Err(PromoteError::ActionsMissing);
        },
    };
    if action_index >= actions.len() {
        return Err(PromoteError::IndexOutOfBounds);
    }
    let a = &actions[action_index];
    match a {
        JsonValue::Object(_) => match a.get_key("sourceCode") {
            Some(JsonValue::Str(src)) => Ok(src.clone()),
            _ => Err(PromoteError::SourceMissing),
        },
        _ => Err(PromoteError::SourceMissing),
    }
}

/// Entries with the value under `k` set to `v`: replaced in place when the key is present,
/// appended otherwise.
pub open spec fn set_entry(es: Seq<(Seq<char>, JsonSpec)>, k: Seq<char>, v: JsonSpec) -> Seq<(Seq<char>, JsonSpec)>
    decreases es.len(),
{
    if es.len() == 0 {
        seq![(k, v)]
    } else if es[0].0 == k {
        seq![(k, v)] + es.drop_first()
    } else {
        seq![es[0]] + set_entry(es.drop_first(), k, v)
    }
}

pub open spec fn entries_view(v: Seq<(String, JsonValue)>) -> Seq<(Seq<char>, JsonSpec)> {
    Seq::new(v.len(), |i: int| (v[i].0@, v[i].1@))
}

proof fn lemma_set_entry_split(es: Seq<(Seq<char>, JsonSpec)>, k: Seq<char>, v: JsonSpec, i: int)
    requires
        0 <= i <= es.len(),
        forall|m: int| 0 <= m < i ==> (#[trigger] es[m]).0 != k,
    ensures
        set_entry(es, k, v) == es.subrange(0, i) + set_entry(es.subrange(i, es.len() as int), k, v),
    decreases i,
{
    if i == 0 {
        assert(es.subrange(0, 0) + set_entry(es.subrange(0, es.len() as int), k, v) =~= set_entry(es, k, v)) by {
            assert(es.subrange(0, es.len() as int) =~= es);
        }
    } else {
        lemma_set_entry_split(es.drop_first(), k, v, i - 1);
        assert(es.drop_first().subrange(0, i - 1) =~= es.subrange(1, i));
        assert(es.drop_first().subrange(i - 1, es.len() - 1) =~= es.subrange(i, es.len() as int));
        assert(seq![es[0]] + es.subrange(1, i) =~= es.subrange(0, i));
    }
}

/// Sets `key` to a string value in an object's entries.
fn set_string(es: &mut Vec<(String, JsonValue)>, key: &str, value: &str)
    ensures
        entries_view(final(es)@) == set_entry(entries_view(old(es)@), key@, JsonSpec::Str(value@)),
{
    let ghost ev = entries_view(es@);
    let kc = chars_of(key);
    let mut i: usize = 0;
    while i < es.len()
        invariant
            i <= es.len(),
            es@ == old(es)@,
            ev == entries_view(es@),
            kc@ == key@,
            forall|m: int| 0 <= m < i ==> (#[trigger] ev[m]).0 != key@,
        decreases es.len() - i,
    {
        let ec = chars_of(es[i].0.as_str());
        if crate::text::chars_eq(&ec, &kc) {
            proof {
                lemma_set_entry_split(ev, key@, JsonSpec::Str(value@), i as int);
                assert(ev[i as int].0 == key@);
            }
            let nv = JsonValue::Str(value.to_owned());
            es.set(i, (key.to_owned(), nv));
            proof {
                let rest = ev.subrange(i as int, ev.len() as int);
                assert(rest[0].0 == key@);
                assert(entries_view(es@) =~= ev.subrange(0, i as int) + (seq![(key@, JsonSpec::Str(value@))] + rest.drop_first()));
            }
            return;
        }
        i = i + 1;
    }
    proof {
        lemma_set_entry_split(ev, key@, JsonSpec::Str(value@), ev.len() as int);
        assert(ev.subrange(ev.len() as int, ev.len() as int) =~= Seq::<(Seq<char>, JsonSpec)>::empty());
    }
    es.push((key.to_owned(), JsonValue::Str(value.to_owned())));
    assert(entries_view(es@) =~= ev + seq![(key@, JsonSpec::Str(value@))]);
}

/// The action at `idx` with its new source code and, when given, its runtime.
pub open spec fn updated_action(es: Seq<(Seq<char>, JsonSpec)>, src: Seq<char>, runtime: Option<Seq<char>>) -> JsonSpec {
    let with_src = set_entry(es, "sourceCode"@, JsonSpec::Str(src));
    JsonSpec::Object(
        match runtime {
            Some(rt) => set_entry(with_src, "runtime"@, JsonSpec::Str(rt)),
            None => with_src,
        },
    )
}

/// An entry of the payload for an optional field: present when the workflow has it.
pub open spec fn opt_entry(es: Seq<(Seq<char>, JsonSpec)>, k: Seq<char>) -> Seq<(Seq<char>, JsonSpec)> {
    match obj_get(es, k) {
        Some(v) => seq![(k, v)],
        None => Seq::empty(),
    }
}

pub open spec fn req_value(es: Seq<(Seq<char>, JsonSpec)>, k: Seq<char>) -> JsonSpec {
    match obj_get(es, k) {
        Some(v) => v,
        None => JsonSpec::Null,
    }
}

/// The fields that the update request must carry, in order.
pub open spec fn required_missing(es: Seq<(Seq<char>, JsonSpec)>) -> Option<usize> {
    if !crate::json::has_key(es, "revisionId"@) {
        Some(0usize)
    } else if !crate::json::has_key(es, "type"@) {
        Some(1usize)
    } else if !crate::json::has_key(es, "name"@) {
        Some(2usize)
    } else if !crate::json::has_key(es, "isEnabled"@) {
        Some(3usize)
    } else if !crate::json::has_key(es, "actions"@) {
        Some(4usize)
    } else if !crate::json::has_key(es, "startActionId"@) {
        Some(5usize)
    } else {
        None
    }
}

/// The update request: the required fields (with the new actions), then the allow-listed optional
/// fields that the workflow has.
pub open spec fn payload_entries(es: Seq<(Seq<char>, JsonSpec)>, actions: JsonSpec) -> Seq<(Seq<char>, JsonSpec)> {
    seq![
        ("revisionId"@, req_value(es, "revisionId"@)),
        ("type"@, req_value(es, "type"@)),
        ("name"@, req_value(es, "name"@)),
        ("isEnabled"@, req_value(es, "isEnabled"@)),
        ("actions"@, actions),
        ("startActionId"@, req_value(es, "startActionId"@)),
    ] + optional_entries(es)
}

/// The update request for replacing action `idx`'s source (and runtime), or why it cannot be built.
pub open spec fn payload_spec(flow: JsonSpec, idx: int, src: Seq<char>, runtime: Option<Seq<char>>) -> Result<JsonSpec, PromoteError> {
    match flow_actions(flow) {
        None => Err(PromoteError::ActionsMissing),
        Some(xs) => if idx >= xs.len() {
            Err(PromoteError::IndexOutOfBounds)
        } else {
            match xs[idx] {
                JsonSpec::Object(aes) => {
                    let es = flow->Object_0;
                    match required_missing(es) {
                        Some(f) => Err(PromoteError::RequiredFieldMissing { field: f }),
                        None => Ok(JsonSpec::Object(payload_entries(es, JsonSpec::Array(xs.update(idx, updated_action(aes, src, runtime)))))),
                    }
                },
                _ => Err(PromoteError::ActionNotObject),
            }
        },
    }
}

fn copy_entries(es: &Vec<(String, JsonValue)>) -> (r: Vec<(String, JsonValue)>)
    ensures
        entries_view(r@) == entries_view(es@),
{
    let mut out: Vec<(String, JsonValue)> = Vec::new();
    let mut i: usize = 0;
    while i < es.len()
        invariant
            i <= es.len(),
            out@.len() == i,
            entries_view(out@) == entries_view(es@).subrange(0, i as int),
        decreases es.len() - i,
    {
        let k = es[i].0.clone();
        let v = es[i].1.deep_copy();
        let ghost prev = out@;
        out.push((k, v));
        proof {
            assert(out@[i as int].0@ == es@[i as int].0@);
            assert(out@[i as int].1@ == es@[i as int].1@);
            assert forall|m: int| 0 <= m < i implies out@[m] == prev[m] by {}
        }
        i = i + 1;
        assert(entries_view(out@) =~= entries_view(es@).subrange(0, i as int));
    }
    assert(entries_view(es@).subrange(0, es.len() as int) =~= entries_view(es@));
    out
}

fn push_required(out: &mut Vec<(String, JsonValue)>, flow: &JsonValue, key: &str) -> (present: bool)
    requires
        flow.wf(),
        flow@ is Object,
    ensures
        present == crate::json::has_key(flow@->Object_0, key@),
        present ==> entries_view(final(out)@) == entries_view(old(out)@).push((key@, req_value(flow@->Object_0, key@))),
{
    match flow.get_key(key) {
        Some(v) => {
            out.push((key.to_owned(), v.deep_copy()));
            assert(entries_view(out@) =~= entries_view(old(out)@).push((key@, req_value(flow@->Object_0, key@))));
            true
        },
        None => false,
    }
}

fn push_optional(out: &mut Vec<(String, JsonValue)>, flow: &JsonValue, key: &str)
    requires
        flow.wf(),
        flow@ is Object,
    ensures
        entries_view(final(out)@) == entries_view(old(out)@) + opt_entry(flow@->Object_0, key@),
{
    match flow.get_key(key) {
        Some(v) => {
            out.push((key.to_owned(), v.deep_copy()));
            assert(entries_view(out@) =~= entries_view(old(out)@) + opt_entry(flow@->Object_0, key@));
        },
        None => {
            assert(entries_view(out@) =~= entries_view(old(out)@) + opt_entry(flow@->Object_0, key@));
        },
    }
}

/// Builds the update request that replaces the source code (and, when given, the runtime) of the
/// action at `action_index`, keeping only the fields the update accepts.
pub fn build_updated_flow_payload(
    flow: &JsonValue,
    action_index: usize,
    new_source: &str,
    runtime_override: Option<&str>,
) -> (r: Result<JsonValue, PromoteError>)
    requires
        flow.wf(),
    ensures
        match payload_spec(flow@, action_index as int, new_source@, match runtime_override {
            Some(rt) => Some(rt@),
            None => None,
        }) {
            Ok(p) => r matches Ok(v) && v@ == p,
            Err(e) => r == Err::<JsonValue, PromoteError>(e),
        },
{
    let actions = match actions_of(flow) {
        Some(xs) => xs,
        None => {
            return Err(PromoteError::ActionsMissing);
        },
    };
    if action_index >= actions.len() {
        return Err(PromoteError::IndexOutOfBounds);
    }
    let ghost sxs = flow_actions(flow@)->0;
    let target = &actions[action_index];
    let aes = match target {
        JsonValue::Object(aes) => aes,
        _ => {
            return Err(PromoteError::ActionNotObject);
        },
    };
    let mut updated = copy_entries(aes);
    set_string(&mut updated, "sourceCode", new_source);
    match runtime_override {
        Some(rt) => set_string(&mut updated, "runtime", rt),
        None => {},
    }
    let ghost new_action = updated_action(target@->Object_0, new_source@, match runtime_override {
        Some(rt) => Some(rt@),
        None => None,
    });
    proof {
        assert(target@->Object_0 =~= entries_view(aes@));
    }
    let updated_value = JsonValue::Object(updated);
    assert(updated_value@ == new_action) by {
        assert(updated_value@->Object_0 =~= entries_view(updated@));
    }
    let new_array = replace_action(actions, action_index, updated_value, Ghost(sxs));
    assemble_payload(flow, new_array)
}

fn replace_action(actions: &Vec<JsonValue>, action_index: usize, updated_value: JsonValue, Ghost(sxs): Ghost<Seq<JsonSpec>>) -> (r: JsonValue)
    requires
        action_index < actions.len(),
        sxs.len() == actions.len(),
        forall|k: int| 0 <= k < sxs.len() ==> (#[trigger] sxs[k]) == actions@[k]@,
    ensures
        r@ == JsonSpec::Array(sxs.update(action_index as int, updated_value@)),
{
    let ghost new_action = updated_value@;
    let mut new_actions: Vec<JsonValue> = Vec::new();
    let mut i: usize = 0;
    let mut pending: Option<JsonValue> = Some(updated_value);
    while i < actions.len()
        invariant
            i <= actions.len(),
            action_index < actions.len(),
            sxs.len() == actions.len(),
            forall|k: int| 0 <= k < sxs.len() ==> (#[trigger] sxs[k]) == actions@[k]@,
            new_actions@.len() == i,
            forall|k: int| 0 <= k < i ==> (#[trigger] new_actions@[k])@ == sxs.update(action_index as int, new_action)[k],
            i <= action_index ==> (pending matches Some(p) && p@ == new_action),
        decreases actions.len() - i,
    {
        if i == action_index {
            let p = pending.take();
            match p {
                Some(p) => new_actions.push(p),
                None => new_actions.push(JsonValue::Null),
            }
        } else {
            new_actions.push(actions[i].deep_copy());
        }
        i = i + 1;
    }
    let new_array = JsonValue::Array(new_actions);
    assert(new_array@ == JsonSpec::Array(sxs.update(action_index as int, new_action))) by {
        assert(new_array@->Array_0 =~= sxs.update(action_index as int, new_action));
    }
    new_array
}

/// The allow-listed optional fields that the workflow has, in order.
pub open spec fn optional_entries(es: Seq<(Seq<char>, JsonSpec)>) -> Seq<(Seq<char>, JsonSpec)> {
    opt_entry(es, "enrollmentCriteria"@) + opt_entry(es, "enrollmentSchedule"@) + opt_entry(es, "goalFilterBranch"@)
        + opt_entry(es, "suppressionListIds"@) + opt_entry(es, "timeWindows"@) + opt_entry(es, "blockedDates"@)
        + opt_entry(es, "unEnrollmentSetting"@) + opt_entry(es, "customProperties"@) + opt_entry(
        es,
        "canEnrollFromSalesforce"@,
    ) + opt_entry(es, "description"@)
}

#[verifier::rlimit(60)]
fn push_optional_fields(out: &mut Vec<(String, JsonValue)>, flow: &JsonValue)
    requires
        flow.wf(),
        flow@ is Object,
    ensures
        entries_view(final(out)@) == entries_view(old(out)@) + optional_entries(flow@->Object_0),
{
    let ghost es = flow@->Object_0;
    let ghost start = entries_view(out@);
    push_optional(out, flow, "enrollmentCriteria");
    let ghost s1 = entries_view(out@);
    push_optional(out, flow, "enrollmentSchedule");
    let ghost s2 = entries_view(out@);
    push_optional(out, flow, "goalFilterBranch");
    let ghost s3 = entries_view(out@);
    push_optional(out, flow, "suppressionListIds");
    let ghost s4 = entries_view(out@);
    push_optional(out, flow, "timeWindows");
    let ghost s5 = entries_view(out@);
    push_optional(out, flow, "blockedDates");
    let ghost s6 = entries_view(out@);
    push_optional(out, flow, "unEnrollmentSetting");
    let ghost s7 = entries_view(out@);
    push_optional(out, flow, "customProperties");
    let ghost s8 = entries_view(out@);
    push_optional(out, flow, "canEnrollFromSalesforce");
    let ghost s9 = entries_view(out@);
    push_optional(out, flow, "description");
    proof {
        let o1 = opt_entry(es, "enrollmentCriteria"@);
        let o2 = opt_entry(es, "enrollmentSchedule"@);
        let o3 = opt_entry(es, "goalFilterBranch"@);
        let o4 = opt_entry(es, "suppressionListIds"@);
        let o5 = opt_entry(es, "timeWindows"@);
        let o6 = opt_entry(es, "blockedDates"@);
        let o7 = opt_entry(es, "unEnrollmentSetting"@);
        let o8 = opt_entry(es, "customProperties"@);
        let o9 = opt_entry(es, "canEnrollFromSalesforce"@);
        let o10 = opt_entry(es, "description"@);
        assert(optional_entries(es) == o1 + o2 + o3 + o4 + o5 + o6 + o7 + o8 + o9 + o10);
        assert(s2 =~= start + (o1 + o2));
        assert(s3 =~= start + (o1 + o2 + o3));
        assert(s4 =~= start + (o1 + o2 + o3 + o4));
        assert(s5 =~= start + (o1 + o2 + o3 + o4 + o5));
        assert(s6 =~= start + (o1 + o2 + o3 + o4 + o5 + o6));
        assert(s7 =~= start + (o1 + o2 + o3 + o4 + o5 + o6 + o7));
        assert(s8 =~= start + (o1 + o2 + o3 + o4 + o5 + o6 + o7 + o8));
        assert(s9 =~= start + (o1 + o2 + o3 + o4 + o5 + o6 + o7 + o8 + o9));
        assert(entries_view(out@) =~= start + optional_entries(es));
    }
}

fn assemble_payload(flow: &JsonValue, new_array: JsonValue) -> (r: Result<JsonValue, PromoteError>)
    requires
        flow.wf(),
        flow@ is Object,
    ensures
        match required_missing(flow@->Object_0) {
            Some(f) => r == Err::<JsonValue, PromoteError>(PromoteError::RequiredFieldMissing { field: f }),
            None => r matches Ok(v) && v@ == JsonSpec::Object(payload_entries(flow@->Object_0, new_array@)),
        },
{
    let mut out: Vec<(String, JsonValue)> = Vec::new();
    let ghost es = flow@->Object_0;
    if !push_required(&mut out, flow, "revisionId") {
        return Err(PromoteError::RequiredFieldMissing { field: 0 });
    }
    if !push_required(&mut out, flow, "type") {
        return Err(PromoteError::RequiredFieldMissing { field: 1 });
    }
    if !push_required(&mut out, flow, "name") {
        return Err(PromoteError::RequiredFieldMissing { field: 2 });
    }
    if !push_required(&mut out, flow, "isEnabled") {
        return Err(PromoteError::RequiredFieldMissing { field: 3 });
    }
    let mut probe: Vec<(String, JsonValue)> = Vec::new();
    if !push_required(&mut probe, flow, "actions") {
        return Err(PromoteError::RequiredFieldMissing { field: 4 });
    }
    let ghost before_actions = entries_view(out@);
    let ghost nav = new_array@;
    out.push(("actions".to_owned(), new_array));
    assert(entries_view(out@) =~= before_actions.push(("actions"@, nav)));
    if !push_required(&mut out, flow, "startActionId") {
        return Err(PromoteError::RequiredFieldMissing { field: 5 });
    }
    let ghost required_part = entries_view(out@);
    push_optional_fields(&mut out, flow);
    let payload = JsonValue::Object(out);
    proof {
        assert(payload@->Object_0 =~= entries_view(out@));
        assert(required_part =~= seq![
            ("revisionId"@, req_value(es, "revisionId"@)),
            ("type"@, req_value(es, "type"@)),
            ("name"@, req_value(es, "name"@)),
            ("isEnabled"@, req_value(es, "isEnabled"@)),
            ("actions"@, nav),
            ("startActionId"@, req_value(es, "startActionId"@)),
        ]);
        assert(entries_view(out@) =~= payload_entries(es, nav));
    }
    Ok(payload)
}

/// The SHA-256 digest of the UTF-8 encoding of a text.
pub uninterp spec fn sha256_of(text: Seq<char>) -> Seq<u8>;

/// Relies on `sha2::Sha256::digest` (through `sha2::Digest`) over the UTF-8 bytes of `text`: the
/// 32-byte digest.
#[verifier::external_body]
fn sha256_digest(text: &str) -> (r: Vec<u8>)
    ensures
        r@ == sha256_of(text@),
        r@.len() == 32,
{
    <sha2::Sha256 as sha2::Digest>::digest(text.as_bytes()).to_vec()
}

/// Lowercase hexadecimal text of bytes, two digits per byte, high nibble first.
pub open spec fn hex_spec(b: Seq<u8>) -> Seq<char>
    decreases b.len(),
{
    if b.len() == 0 {
        Seq::empty()
    } else {
        hex_spec(b.drop_last()) + seq![
            crate::render::hex_char((b.last() / 16) as nat),
            crate::render::hex_char((b.last() % 16) as nat),
        ]
    }
}

/// Relies on `hex::encode`: two lowercase hexadecimal digits per byte, high nibble first.
#[verifier::external_body]
fn hex_encode(b: &Vec<u8>) -> (r: String)
    ensures
        r@ == hex_spec(b@),
{
    hex::encode(b)
}

/// The hash of a source file: the hex SHA-256 of its text.
pub fn sha256_hex(text: &str) -> (r: String)
    ensures
        r@ == hex_spec(sha256_of(text@)),
        r@.len() == 64,
{
    let d = sha256_digest(text);
    let h = hex_encode(&d);
    proof {
        lemma_hex_len(d@);
    }
    h
}

proof fn lemma_hex_len(b: Seq<u8>)
    ensures
        hex_spec(b).len() == 2 * b.len(),
    decreases b.len(),
{
    if b.len() > 0 {
        lemma_hex_len(b.drop_last());
    }
}

/// The source to promote and its hash: markers are stripped, the hash is taken of what is left,
/// and the marker for that hash is put back on top.
pub fn prepare_promoted_source(action_code: &str) -> (r: (String, String))
    ensures
        r.0@ == hex_spec(sha256_of(crate::marker::strip_spec(action_code@))),
        r.1@ == crate::marker::inject_spec(crate::marker::strip_spec(action_code@), r.0@),
{
    let canonical = crate::marker::strip_hash_marker(action_code);
    let hash = sha256_hex(canonical.as_str());
    let promoted = crate::marker::inject_hash_marker(canonical.as_str(), hash.as_str());
    (hash, promoted)
}

/// What to do with the action found in the workflow.
#[derive(PartialEq, Eq, Structural)]
pub enum DriftDecision {
    /// It already carries the new hash: nothing to change.
    UpToDate,
    /// It carries another hash: a normal update.
    Update,
    /// It carries no marker and the promotion is not forced: refuse to overwrite it.
    Refuse,
    /// It carries no marker but the promotion is forced.
    Overwrite,
}

/// Compares the marker in the workflow's action with the new hash.
pub fn drift_decision(existing_source: &str, new_hash: &str, force: bool) -> (r: DriftDecision)
    ensures
        r == (match crate::marker::extract_spec(existing_source@) {
            Some(h) => if h == new_hash@ {
                DriftDecision::UpToDate
            } else {
                DriftDecision::Update
            },
            None => if force {
                DriftDecision::Overwrite
            } else {
                DriftDecision::Refuse
            },
        }),
{
    match crate::marker::extract_hash_marker(existing_source) {
        Some(h) => {
            let hv = chars_of(h.as_str());
            let nv = chars_of(new_hash);
            if crate::text::chars_eq(&hv, &nv) {
                DriftDecision::UpToDate
            } else {
                DriftDecision::Update
            }
        },
        None => {
            if force {
                DriftDecision::Overwrite
            } else {
                DriftDecision::Refuse
            }
        },
    }
}

/// Whether the target only shows the update instead of sending it: `deploy.dry_run`, off unless set.
pub fn is_dry_run(t: &CicdTarget) -> (r: bool)
    ensures
        r == (t.deploy matches Some(d) && d.dry_run == Some(true)),
{
    match &t.deploy {
        Some(d) => match d.dry_run {
            Some(b) => b,
            None => false,
        },
        None => false,
    }
}

} // verus!
