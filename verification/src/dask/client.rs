//! Reading what a Dask client script printed.

use vstd::prelude::*;
use vstd::string::StringSliceAdditionalSpecFns;
use vstd::utf8::{decode_utf8, encode_utf8, is_char_boundary};

use crate::dask::scripts::{debug_quoted, debug_str};
use crate::text::{
    opt_view,
    chars_of, dec_signed, decimal_signed, is_whitespace_char, lemma_trim_start_step, lines,
    lines_of, str_views, trim, trim_start, trim_str,
};

verus! {

/// `s` cut to its first `max` bytes, followed by an ellipsis; `s` itself when
/// it is no longer than that.
pub fn truncate_output(s: &str, max: usize) -> (r: String)
    requires
        encode_utf8(s@).len() <= usize::MAX,
        encode_utf8(s@).len() <= max || is_char_boundary(encode_utf8(s@), max as int),
    ensures
        encode_utf8(s@).len() <= max ==> r@ == s@,
        encode_utf8(s@).len() > max ==> r@ == decode_utf8(encode_utf8(s@).take(max as int)).push(
            '\u{2026}',
        ),
{
    broadcast use vstd::string::group_string_axioms;

    if s.len() <= max {
        String::from_str(s)
    } else {
        let (head, _) = s.split_at(max);
        proof {
            vstd::utf8::encode_utf8_decode_utf8(head@);
            assert(head.spec_bytes() =~= encode_utf8(s@).take(max as int));
            assert(head@ == decode_utf8(encode_utf8(s@).take(max as int)));
        }
        let mut r = String::from_str(head);
        assert(r@ == head@);
        crate::text::push_char(&mut r, '\u{2026}');
        r
    }
}

/// Whether a line, after its leading whitespace, opens a JSON object.
pub open spec fn opens_object(l: Seq<char>) -> bool {
    trim_start(l).len() > 0 && trim_start(l)[0] == '{'
}

/// The last line of a list that opens a JSON object.
pub open spec fn last_object_line(ls: Seq<Seq<char>>) -> Option<Seq<char>>
    decreases ls.len(),
{
    if ls.len() == 0 {
        None
    } else if opens_object(ls.last()) {
        Some(ls.last())
    } else {
        last_object_line(ls.drop_last())
    }
}

/// The line of a script's output that holds its JSON answer: the last line
/// that opens an object, else the whole trimmed output.
pub open spec fn json_line_of(stdout: Seq<char>) -> Seq<char> {
    match last_object_line(lines(trim(stdout))) {
        Some(l) => l,
        None => trim(stdout),
    }
}

fn opens_object_exec(l: &str) -> (b: bool)
    ensures
        b == opens_object(l@),
{
    let v = chars_of(l);
    let n = v.len();
    let mut i: usize = 0;
    assert(v@.subrange(0, n as int) =~= l@);
    while i < n && is_whitespace_char(v[i])
        invariant
            i <= n == v@.len(),
            v@ == l@,
            trim_start(v@.subrange(i as int, n as int)) == trim_start(l@),
        decreases n - i,
    {
        proof {
            lemma_trim_start_step(v@, i as int, n as int);
        }
        i = i + 1;
    }
    if i < n {
        assert(trim_start(v@.subrange(i as int, n as int)) == v@.subrange(i as int, n as int));
        v[i] == '{'
    } else {
        assert(v@.subrange(i as int, n as int).len() == 0);
        false
    }
}

pub fn json_line(stdout: &str) -> (r: &str)
    ensures
        r@ == json_line_of(stdout@),
{
    let trimmed = trim_str(stdout);
    let ls = lines_of(trimmed);
    let ghost lv = lines(trimmed@);
    let mut k: usize = ls.len();
    assert(lv.take(lv.len() as int) =~= lv);
    while k > 0
        invariant
            k <= ls@.len(),
            str_views(ls@) == lv,
            lv == lines(trim(stdout@)),
            last_object_line(lv) == last_object_line(lv.take(k as int)),
        decreases k,
    {
        assert(lv.take(k as int).last() == ls@[k - 1]@);
        assert(lv.take(k as int).drop_last() =~= lv.take(k - 1));
        if opens_object_exec(ls[k - 1]) {
            assert(last_object_line(lv.take(k as int)) == Some(ls@[k - 1]@));
            return ls[k - 1];
        }
        k = k - 1;
    }
    assert(lv.take(0).len() == 0);
    trimmed
}

/// What to report when a script's output is not JSON: its trimmed standard
/// error, else its trimmed standard output, else its exit code.
pub open spec fn failure_detail_of(stderr: Seq<char>, stdout: Seq<char>, exit_code: i32) -> Seq<char> {
    if trim(stderr).len() > 0 {
        trim(stderr)
    } else if trim(stdout).len() > 0 {
        trim(stdout)
    } else {
        "Python exited with code "@ + dec_signed(exit_code as int)
    }
}

pub fn failure_detail(stderr: &str, stdout: &str, exit_code: i32) -> (r: String)
    ensures
        r@ == failure_detail_of(stderr@, stdout@, exit_code),
{
    let e = trim_str(stderr);
    if chars_of(e).len() > 0 {
        return String::from_str(e);
    }
    let o = trim_str(stdout);
    if chars_of(o).len() > 0 {
        return String::from_str(o);
    }
    let mut r = String::from_str("Python exited with code ");
    r.append(decimal_signed(exit_code as i64).as_str());
    r
}

/// Whether `text` is one JSON document (`serde_json::from_str` accepts it).
pub uninterp spec fn json_parses(text: Seq<char>) -> bool;

/// The message of `serde_json`'s error for text that is not JSON.
pub uninterp spec fn json_error_text(text: Seq<char>) -> Seq<char>;

/// The boolean under `key` of the JSON object `text`, if it has one there.
pub uninterp spec fn json_bool_field(text: Seq<char>, key: Seq<char>) -> Option<bool>;

/// The string under `key` of the JSON object `text`, if it has one there.
pub uninterp spec fn json_str_field(text: Seq<char>, key: Seq<char>) -> Option<Seq<char>>;

/// The unsigned integer (below 2^64) under `key` of the JSON object `text`,
/// if it has one there.
pub uninterp spec fn json_u64_field(text: Seq<char>, key: Seq<char>) -> Option<u64>;

/// Whether the JSON object `text` has an entry under `key`.
pub uninterp spec fn json_has_field(text: Seq<char>, key: Seq<char>) -> bool;

/// What the job logic reads of a client script's JSON answer; the result
/// document itself is carried as it is.
#[derive(Debug, Clone)]
pub struct JobPayload {
    pub ok: Option<bool>,
    pub error: Option<String>,
    pub result: Option<serde_json::Value>,
    pub execution_time_ms: Option<u64>,
    pub workers_used: Option<u64>,
}

/// `serde_json::from_str` into a `Value`, then `get` of the entries `ok`
/// (`as_bool`), `error` (`as_str`), `result` (cloned), `executionTimeMs` and
/// `workersUsed` (`as_u64`). Each part is named after the text alone; what
/// `serde_json` accepts and what it reads are not written out.
#[verifier::external_body]
fn parse_payload(text: &str) -> (r: Result<JobPayload, String>)
    ensures
        r is Ok <==> json_parses(text@),
        r matches Err(e) ==> e@ == json_error_text(text@),
        r matches Ok(p) ==> {
            &&& p.ok == json_bool_field(text@, "ok"@)
            &&& opt_view(p.error) == json_str_field(text@, "error"@)
            &&& (p.result is Some <==> json_has_field(text@, "result"@))
            &&& p.execution_time_ms == json_u64_field(text@, "executionTimeMs"@)
            &&& p.workers_used == json_u64_field(text@, "workersUsed"@)
        },
{
    match serde_json::from_str::<serde_json::Value>(text) {
        Ok(v) => Ok(JobPayload {
            ok: v.get("ok").and_then(|x| x.as_bool()),
            error: v.get("error").and_then(|x| x.as_str()).map(|x| x.to_string()),
            result: v.get("result").cloned(),
            execution_time_ms: v.get("executionTimeMs").and_then(|x| x.as_u64()),
            workers_used: v.get("workersUsed").and_then(|x| x.as_u64()),
        }),
        Err(e) => Err(e.to_string()),
    }
}

/// The error of a client script whose output is not JSON.
pub open spec fn json_failure_text(stdout: Seq<char>) -> Seq<char> {
    "Failed to parse client JSON: "@ + json_error_text(json_line_of(stdout)) + " (stdout="@
        + debug_quoted(stdout) + ")"@
}

/// Reads a client script's answer: the last line of its output that opens
/// a JSON object (or all of the trimmed output), parsed.
pub fn parse_json_stdout(stdout: &str) -> (r: Result<JobPayload, String>)
    ensures
        r is Ok <==> json_parses(json_line_of(stdout@)),
        r matches Err(e) ==> e@ == json_failure_text(stdout@),
        r matches Ok(p) ==> {
            let line = json_line_of(stdout@);
            &&& p.ok == json_bool_field(line, "ok"@)
            &&& opt_view(p.error) == json_str_field(line, "error"@)
            &&& (p.result is Some <==> json_has_field(line, "result"@))
            &&& p.execution_time_ms == json_u64_field(line, "executionTimeMs"@)
            &&& p.workers_used == json_u64_field(line, "workersUsed"@)
        },
{
    let line = json_line(stdout);
    match parse_payload(line) {
        Ok(p) => Ok(p),
        Err(e) => {
            let mut m = String::from_str("Failed to parse client JSON: ");
            m.append(e.as_str());
            m.append(" (stdout=");
            let d = debug_str(stdout);
            m.append(d.as_str());
            m.append(")");
            Err(m)
        },
    }
}

/// What a Python run of a client script gave back.
pub struct ScriptOutput {
    pub stdout: String,
    pub stderr: String,
    pub exit_code: i32,
    pub execution_time_ms: u64,
}

/// The result of a job run through the Dask client. Its CPU utilisation and
/// speed-up are not measured here (the application reports none).
#[derive(Debug, Clone)]
pub struct DaskJobResult {
    pub job_id: String,
    pub success: bool,
    pub result: Option<serde_json::Value>,
    pub error: Option<String>,
    pub execution_time_ms: u64,
    pub workers_used: usize,
}

/// The error reported for output that is not JSON: the parse error, then
/// the failure detail cut to 800 bytes.
pub open spec fn unparsed_error_text(parse_error: Seq<char>, detail: Seq<char>) -> Seq<char> {
    parse_error + " Output: "@ + (if encode_utf8(detail).len() <= 800 {
        detail
    } else {
        decode_utf8(encode_utf8(detail).take(800)).push('\u{2026}')
    })
}

/// The job result from a script's output and its parsed answer: a parse
/// failure reports the parse error with the failure detail; an answer whose
/// `ok` is not `true` reports its `error` (or `Job failed`); otherwise the
/// job succeeded with the answer's result, its execution time (else the
/// run's) and its worker count (else 0).
pub fn job_result_from_output(job_id: String, out: &ScriptOutput, payload: Result<JobPayload, String>) -> (r:
    DaskJobResult)
    requires
        payload is Err ==> {
            let d = encode_utf8(failure_detail_of(out.stderr@, out.stdout@, out.exit_code));
            d.len() <= 800 || is_char_boundary(d, 800)
        },
    ensures
        r.job_id == job_id,
        match payload {
            Err(e) => {
                &&& !r.success
                &&& r.result is None
                &&& r.error matches Some(m) && m@ == unparsed_error_text(
                    e@,
                    failure_detail_of(out.stderr@, out.stdout@, out.exit_code),
                )
                &&& r.execution_time_ms == out.execution_time_ms
                &&& r.workers_used == 0
            },
            Ok(p) => if p.ok == Some(true) {
                &&& r.success
                &&& r.result == p.result
                &&& r.error is None
                &&& r.execution_time_ms == (match p.execution_time_ms {
                    Some(t) => t,
                    None => out.execution_time_ms,
                })
                &&& r.workers_used == (match p.workers_used {
                    Some(w) => w as usize,
                    None => 0usize,
                })
            } else {
                &&& !r.success
                &&& r.result is None
                &&& r.error matches Some(m) && m@ == (match p.error {
                    Some(e) => e@,
                    None => "Job failed"@,
                })
                &&& r.execution_time_ms == out.execution_time_ms
                &&& r.workers_used == 0
            },
        },
{
    match payload {
        Err(e) => {
            let detail = failure_detail(out.stderr.as_str(), out.stdout.as_str(), out.exit_code);
            let mut m = e;
            m.append(" Output: ");
            let nb = detail.as_str().as_bytes().len();
            assert(encode_utf8(detail@).len() == nb);
            let cut = truncate_output(detail.as_str(), 800);
            m.append(cut.as_str());
            DaskJobResult {
                job_id,
                success: false,
                result: None,
                error: Some(m),
                execution_time_ms: out.execution_time_ms,
                workers_used: 0,
            }
        },
        Ok(p) => {
            if p.ok == Some(true) {
                let t = match p.execution_time_ms {
                    Some(t) => t,
                    None => out.execution_time_ms,
                };
                let w: usize = match p.workers_used {
                    Some(w) => #[verifier::truncate] (w as usize),
                    None => 0,
                };
                DaskJobResult { job_id, success: true, result: p.result, error: None, execution_time_ms: t, workers_used: w }
            } else {
                let m = match p.error {
                    Some(e) => e,
                    None => String::from_str("Job failed"),
                };
                DaskJobResult {
                    job_id,
                    success: false,
                    result: None,
                    error: Some(m),
                    execution_time_ms: out.execution_time_ms,
                    workers_used: 0,
                }
            }
        },
    }
}

/// How many entries the array under `key` of the JSON object `text` has,
/// if there is an array there.
pub uninterp spec fn json_array_len(text: Seq<char>, key: Seq<char>) -> Option<nat>;

/// The string under `field` of entry `i` of the array under `key` of the
/// JSON object `text`, if there is one.
pub uninterp spec fn json_item_str(text: Seq<char>, key: Seq<char>, i: int, field: Seq<char>) -> Option<Seq<char>>;

/// The unsigned integer (below 2^64) under `field` of entry `i` of the array
/// under `key` of the JSON object `text`, if there is one.
pub uninterp spec fn json_item_u64(text: Seq<char>, key: Seq<char>, i: int, field: Seq<char>) -> Option<u64>;

/// The bit pattern of the number (as `f64`) under `field` of entry `i` of
/// the array under `key` of the JSON object `text`, if there is one.
pub uninterp spec fn json_item_f64_bits(text: Seq<char>, key: Seq<char>, i: int, field: Seq<char>) -> Option<u64>;

/// What one entry of the answer's `workers` array says.
pub struct WorkerEntry {
    pub id: Option<String>,
    pub name: Option<String>,
    pub address: Option<String>,
    pub nthreads: Option<u64>,
    pub memory_limit: Option<u64>,
    pub memory_used: Option<u64>,
    pub cpu_bits: Option<u64>,
    pub status: Option<String>,
}

/// What the monitor reads of a cluster-info answer.
pub struct ClusterInfoFields {
    pub workers: Option<Vec<WorkerEntry>>,
    pub active_tasks: Option<u64>,
}

/// Entry `i` of the `workers` array of `text` is read into `w`.
pub open spec fn worker_entry_read(text: Seq<char>, i: int, w: WorkerEntry) -> bool {
    &&& opt_view(w.id) == json_item_str(text, "workers"@, i, "id"@)
    &&& opt_view(w.name) == json_item_str(text, "workers"@, i, "name"@)
    &&& opt_view(w.address) == json_item_str(text, "workers"@, i, "address"@)
    &&& w.nthreads == json_item_u64(text, "workers"@, i, "nthreads"@)
    &&& w.memory_limit == json_item_u64(text, "workers"@, i, "memoryLimit"@)
    &&& w.memory_used == json_item_u64(text, "workers"@, i, "memoryUsed"@)
    &&& w.cpu_bits == json_item_f64_bits(text, "workers"@, i, "cpu"@)
    &&& opt_view(w.status) == json_item_str(text, "workers"@, i, "status"@)
}

/// `serde_json::from_str` into a `Value`: whether the text is JSON.
#[verifier::external_body]
fn is_json(text: &str) -> (b: bool)
    ensures
        b == json_parses(text@),
{
    serde_json::from_str::<serde_json::Value>(text).is_ok()
}

/// `serde_json::from_str` into a `Value`, then `get(key)` with `as_u64`.
#[verifier::external_body]
fn json_u64_of(text: &str, key: &str) -> (r: Option<u64>)
    ensures
        json_parses(text@) ==> r == json_u64_field(text@, key@),
{
    serde_json::from_str::<serde_json::Value>(text).ok()?.get(key)?.as_u64()
}

/// `serde_json::from_str` into a `Value`, then `get("workers")` with
/// `as_array`, and of each entry `id`, `name`, `address`, `status`
/// (`as_str`), `nthreads`, `memoryLimit`, `memoryUsed` (`as_u64`) and `cpu`
/// (`as_f64`, as bits). Each part is named after the text alone.
#[verifier::external_body]
fn json_workers_of(text: &str) -> (r: Option<Vec<WorkerEntry>>)
    ensures
        json_parses(text@) ==> (r is Some <==> json_array_len(text@, "workers"@) is Some),
        r matches Some(ws) ==> {
            &&& json_array_len(text@, "workers"@) == Some(ws@.len())
            &&& forall|i: int|
                0 <= i < ws@.len() ==> {
                    &&& opt_view(#[trigger] ws@[i].id) == json_item_str(text@, "workers"@, i, "id"@)
                    &&& opt_view(ws@[i].name) == json_item_str(text@, "workers"@, i, "name"@)
                    &&& opt_view(ws@[i].address) == json_item_str(text@, "workers"@, i, "address"@)
                    &&& ws@[i].nthreads == json_item_u64(text@, "workers"@, i, "nthreads"@)
                    &&& ws@[i].memory_limit == json_item_u64(text@, "workers"@, i, "memoryLimit"@)
                    &&& ws@[i].memory_used == json_item_u64(text@, "workers"@, i, "memoryUsed"@)
                    &&& ws@[i].cpu_bits == json_item_f64_bits(text@, "workers"@, i, "cpu"@)
                    &&& opt_view(ws@[i].status) == json_item_str(text@, "workers"@, i, "status"@)
                }
        },
{
    let v: serde_json::Value = serde_json::from_str(text).ok()?;
    let s = |w: &serde_json::Value, k| w.get(k)?.as_str().map(String::from);
    let u = |w: &serde_json::Value, k| w.get(k)?.as_u64();
    Some(v.get("workers")?.as_array()?.iter().map(|w| WorkerEntry {
        id: s(w, "id"), name: s(w, "name"), address: s(w, "address"), nthreads: u(w, "nthreads"),
        memory_limit: u(w, "memoryLimit"), memory_used: u(w, "memoryUsed"),
        cpu_bits: w.get("cpu").and_then(|x| x.as_f64()).map(|c| c.to_bits()), status: s(w, "status"),
    }).collect())
}

/// Reads a cluster-info script's answer: the last line of its output that
/// opens a JSON object (or all of the trimmed output), parsed; `None` when
/// it is not JSON.
pub fn read_cluster_info(stdout: &str) -> (r: Option<ClusterInfoFields>)
    ensures
        r is Some <==> json_parses(json_line_of(stdout@)),
        r matches Some(f) ==> {
            let line = json_line_of(stdout@);
            &&& f.active_tasks == json_u64_field(line, "activeTasks"@)
            &&& (f.workers is Some <==> json_array_len(line, "workers"@) is Some)
            &&& f.workers matches Some(ws) ==> {
                &&& json_array_len(line, "workers"@) == Some(ws@.len())
                &&& forall|i: int| 0 <= i < ws@.len() ==> #[trigger] worker_entry_read(line, i, ws@[i])
            }
        },
{
    let line = json_line(stdout);
    if !is_json(line) {
        return None;
    }
    let workers = json_workers_of(line);
    let active_tasks = json_u64_of(line, "activeTasks");
    proof {
        if workers is Some {
            let ws = workers->Some_0;
            assert forall|i: int| 0 <= i < ws@.len() implies #[trigger] worker_entry_read(line@, i, ws@[i]) by {
                assert(opt_view(ws@[i].id) == json_item_str(line@, "workers"@, i, "id"@));
            }
        }
    }
    Some(ClusterInfoFields { workers, active_tasks })
}

} // verus!
