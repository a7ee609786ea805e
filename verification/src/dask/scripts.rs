//! Embedded Python scripts that drive Dask via its official Python API.
//!
//! Each script is a fixed template with a few holes. Text values are written
//! into the template as Python string literals produced by `{:?}` (Rust's
//! `Debug` quoting, which Python reads back as the same string).

use vstd::prelude::*;

use crate::text::{
    chars_of, dec, is_blank, join, join_strings, line_bounds, lines,
    string_of_range, string_views, trim, trim_bounds, decimal, has_substring,
};

verus! {

/// What `format!("{:?}", s)` renders for a string `s`: a double-quoted
/// literal with `\`, `"` and control characters escaped.
pub uninterp spec fn debug_quoted(s: Seq<char>) -> Seq<char>;

/// `format!("{:?}", s)`: the `Debug` rendering of a string. The contract ties
/// the result to `s` through `debug_quoted` and states nothing of its shape.
#[verifier::external_body]
pub(crate) fn debug_str(s: &str) -> (r: String)
    ensures
        r@ == debug_quoted(s@),
{
    format!("{:?}", s)
}

/// The text of the scheduler script, given its already rendered parts.
pub open spec fn scheduler_script_text(log_level: Seq<char>, host: Seq<char>, port: Seq<char>, dashboard_port: Seq<char>) -> Seq<char> {
    r#"
import asyncio
import json
import sys


import sys
import logging

def _configure_logging(level_name):
    level = getattr(logging, level_name.upper(), logging.INFO)
    logging.basicConfig(
        level=level,
        stream=sys.stdout,
        format="%(levelname)s:%(name)s: %(message)s",
    )
    # Keep distributed chatter on stdout; stderr is reserved for real failures.
    for name in ("distributed", "dask"):
        logging.getLogger(name).setLevel(level)

_configure_logging("#@ + log_level + r#")

from distributed import Scheduler

HOST = "#@ + host + r#"
PORT = "#@ + port + r#"
DASHBOARD_PORT = "#@ + dashboard_port + r#"

async def main():
    async with Scheduler(
        host=HOST,
        port=PORT,
        dashboard_address=f":{DASHBOARD_PORT}",
    ) as scheduler:
        info = {
            "ok": True,
            "address": scheduler.address,
            "dashboard": f"http://127.0.0.1:{DASHBOARD_PORT}/status",
            "services": list(getattr(scheduler, "services", {}).keys()),
        }
        print("DASK_SCHEDULER_READY " + json.dumps(info), flush=True)
        # Run until the parent process terminates us (reliable on Windows).
        await asyncio.Future()

if __name__ == "__main__":
    try:
        asyncio.run(main())
    except Exception as exc:
        print("DASK_SCHEDULER_ERROR " + json.dumps({"ok": False, "error": str(exc)}), flush=True)
        sys.exit(1)
"#@
}

/// Assembles the scheduler script from its already rendered parts.
pub fn render_scheduler_script(log_level: &str, host: &str, port: &str, dashboard_port: &str) -> (r: String)
    ensures
        r@ == scheduler_script_text(log_level@, host@, port@, dashboard_port@),
{
    let mut r = String::from_str(r#"
import asyncio
import json
import sys


import sys
import logging

def _configure_logging(level_name):
    level = getattr(logging, level_name.upper(), logging.INFO)
    logging.basicConfig(
        level=level,
        stream=sys.stdout,
        format="%(levelname)s:%(name)s: %(message)s",
    )
    # Keep distributed chatter on stdout; stderr is reserved for real failures.
    for name in ("distributed", "dask"):
        logging.getLogger(name).setLevel(level)

_configure_logging("#);
    r.append(log_level);
    r.append(r#")

from distributed import Scheduler

HOST = "#);
    r.append(host);
    r.append(r#"
PORT = "#);
    r.append(port);
    r.append(r#"
DASHBOARD_PORT = "#);
    r.append(dashboard_port);
    r.append(r#"

async def main():
    async with Scheduler(
        host=HOST,
        port=PORT,
        dashboard_address=f":{DASHBOARD_PORT}",
    ) as scheduler:
        info = {
            "ok": True,
            "address": scheduler.address,
            "dashboard": f"http://127.0.0.1:{DASHBOARD_PORT}/status",
            "services": list(getattr(scheduler, "services", {}).keys()),
        }
        print("DASK_SCHEDULER_READY " + json.dumps(info), flush=True)
        # Run until the parent process terminates us (reliable on Windows).
        await asyncio.Future()

if __name__ == "__main__":
    try:
        asyncio.run(main())
    except Exception as exc:
        print("DASK_SCHEDULER_ERROR " + json.dumps({"ok": False, "error": str(exc)}), flush=True)
        sys.exit(1)
"#);
    r
}

/// The scheduler listens on the scheduler port and serves its dashboard on
/// the dashboard port: the script binds `PORT` to the first and
/// `DASHBOARD_PORT` to the second, then hands `PORT` to the scheduler's
/// `port` argument and `DASHBOARD_PORT` to its `dashboard_address`.
pub proof fn lemma_scheduler_ports(
    log_level: Seq<char>,
    host: Seq<char>,
    port: Seq<char>,
    dashboard_port: Seq<char>,
)
    ensures
        has_substring(
            scheduler_script_text(log_level, host, port, dashboard_port),
            "\nPORT = "@ + port + "\nDASHBOARD_PORT = "@ + dashboard_port + "\n\nasync def main():\n    async with Scheduler(\n        host=HOST,\n        port=PORT,\n        dashboard_address=f\":{DASHBOARD_PORT}\",\n"@,
        ),
{
    let text = scheduler_script_text(log_level, host, port, dashboard_port);
    let tail = r#"

async def main():
    async with Scheduler(
        host=HOST,
        port=PORT,
        dashboard_address=f":{DASHBOARD_PORT}",
    ) as scheduler:
        info = {
            "ok": True,
            "address": scheduler.address,
            "dashboard": f"http://127.0.0.1:{DASHBOARD_PORT}/status",
            "services": list(getattr(scheduler, "services", {}).keys()),
        }
        print("DASK_SCHEDULER_READY " + json.dumps(info), flush=True)
        # Run until the parent process terminates us (reliable on Windows).
        await asyncio.Future()

if __name__ == "__main__":
    try:
        asyncio.run(main())
    except Exception as exc:
        print("DASK_SCHEDULER_ERROR " + json.dumps({"ok": False, "error": str(exc)}), flush=True)
        sys.exit(1)
"#@;
    let call = "\n\nasync def main():\n    async with Scheduler(\n        host=HOST,\n        port=PORT,\n        dashboard_address=f\":{DASHBOARD_PORT}\",\n"@;
    let pattern = "\nPORT = "@ + port + "\nDASHBOARD_PORT = "@ + dashboard_port + call;
    reveal_strlit(r#"

async def main():
    async with Scheduler(
        host=HOST,
        port=PORT,
        dashboard_address=f":{DASHBOARD_PORT}",
    ) as scheduler:
        info = {
            "ok": True,
            "address": scheduler.address,
            "dashboard": f"http://127.0.0.1:{DASHBOARD_PORT}/status",
            "services": list(getattr(scheduler, "services", {}).keys()),
        }
        print("DASK_SCHEDULER_READY " + json.dumps(info), flush=True)
        # Run until the parent process terminates us (reliable on Windows).
        await asyncio.Future()

if __name__ == "__main__":
    try:
        asyncio.run(main())
    except Exception as exc:
        print("DASK_SCHEDULER_ERROR " + json.dumps({"ok": False, "error": str(exc)}), flush=True)
        sys.exit(1)
"#);
    reveal_strlit("\n\nasync def main():\n    async with Scheduler(\n        host=HOST,\n        port=PORT,\n        dashboard_address=f\":{DASHBOARD_PORT}\",\n");
    reveal_strlit(r#"
PORT = "#);
    reveal_strlit(r#"
DASHBOARD_PORT = "#);
    reveal_strlit("\nPORT = ");
    reveal_strlit("\nDASHBOARD_PORT = ");
    let rest = tail.subrange(call.len() as int, tail.len() as int);
    assert(tail =~= call + rest);
    let head = r#"
import asyncio
import json
import sys


import sys
import logging

def _configure_logging(level_name):
    level = getattr(logging, level_name.upper(), logging.INFO)
    logging.basicConfig(
        level=level,
        stream=sys.stdout,
        format="%(levelname)s:%(name)s: %(message)s",
    )
    # Keep distributed chatter on stdout; stderr is reserved for real failures.
    for name in ("distributed", "dask"):
        logging.getLogger(name).setLevel(level)

_configure_logging("#@ + log_level + r#")

from distributed import Scheduler

HOST = "#@ + host;
    assert(text =~= head + pattern + rest);
    assert(text.subrange(head.len() as int, (head.len() + pattern.len()) as int) =~= pattern);
}

/// The text of the worker script, given its already rendered parts.
pub open spec fn worker_script_text(log_level: Seq<char>, scheduler_address: Seq<char>, name: Seq<char>, nthreads_expr: Seq<char>, memory_expr: Seq<char>, local_dir_expr: Seq<char>) -> Seq<char> {
    r#"
import asyncio
import json
import sys
import uuid


import sys
import logging

def _configure_logging(level_name):
    level = getattr(logging, level_name.upper(), logging.INFO)
    logging.basicConfig(
        level=level,
        stream=sys.stdout,
        format="%(levelname)s:%(name)s: %(message)s",
    )
    # Keep distributed chatter on stdout; stderr is reserved for real failures.
    for name in ("distributed", "dask"):
        logging.getLogger(name).setLevel(level)

_configure_logging("#@ + log_level + r#")

from distributed import Worker

SCHEDULER = "#@ + scheduler_address + r#"
BASE_NAME = "#@ + name + r#"
# Unique name avoids collisions when restarting workers on the same machine.
NAME = f"{BASE_NAME}-{uuid.uuid4().hex[:8]}"
NTHREADS = "#@ + nthreads_expr + r#"
MEMORY_LIMIT = "#@ + memory_expr + r#"
LOCAL_DIRECTORY = "#@ + local_dir_expr + r#"

async def main():
    kwargs = {
        "name": NAME,
    }
    if NTHREADS is not None:
        kwargs["nthreads"] = NTHREADS
    if MEMORY_LIMIT is not None:
        kwargs["memory_limit"] = MEMORY_LIMIT
    if LOCAL_DIRECTORY is not None:
        kwargs["local_directory"] = LOCAL_DIRECTORY

    async with Worker(SCHEDULER, **kwargs) as worker:
        thread_count = getattr(worker, "nthreads", None)
        if thread_count is None:
            thread_count = NTHREADS
        info = {
            "ok": True,
            "name": worker.name,
            "address": worker.address,
            "scheduler": SCHEDULER,
            "nthreads": thread_count,
        }
        print("DASK_WORKER_READY " + json.dumps(info), flush=True)
        # Run until the parent process terminates us (reliable on Windows).
        await asyncio.Future()

if __name__ == "__main__":
    try:
        asyncio.run(main())
    except Exception as exc:
        print("DASK_WORKER_ERROR " + json.dumps({"ok": False, "error": str(exc)}), flush=True)
        sys.exit(1)
"#@
}

/// Assembles the worker script from its already rendered parts.
pub fn render_worker_script(log_level: &str, scheduler_address: &str, name: &str, nthreads_expr: &str, memory_expr: &str, local_dir_expr: &str) -> (r: String)
    ensures
        r@ == worker_script_text(log_level@, scheduler_address@, name@, nthreads_expr@, memory_expr@, local_dir_expr@),
{
    let mut r = String::from_str(r#"
import asyncio
import json
import sys
import uuid


import sys
import logging

def _configure_logging(level_name):
    level = getattr(logging, level_name.upper(), logging.INFO)
    logging.basicConfig(
        level=level,
        stream=sys.stdout,
        format="%(levelname)s:%(name)s: %(message)s",
    )
    # Keep distributed chatter on stdout; stderr is reserved for real failures.
    for name in ("distributed", "dask"):
        logging.getLogger(name).setLevel(level)

_configure_logging("#);
    r.append(log_level);
    r.append(r#")

from distributed import Worker

SCHEDULER = "#);
    r.append(scheduler_address);
    r.append(r#"
BASE_NAME = "#);
    r.append(name);
    r.append(r#"
# Unique name avoids collisions when restarting workers on the same machine.
NAME = f"{BASE_NAME}-{uuid.uuid4().hex[:8]}"
NTHREADS = "#);
    r.append(nthreads_expr);
    r.append(r#"
MEMORY_LIMIT = "#);
    r.append(memory_expr);
    r.append(r#"
LOCAL_DIRECTORY = "#);
    r.append(local_dir_expr);
    r.append(r#"

async def main():
    kwargs = {
        "name": NAME,
    }
    if NTHREADS is not None:
        kwargs["nthreads"] = NTHREADS
    if MEMORY_LIMIT is not None:
        kwargs["memory_limit"] = MEMORY_LIMIT
    if LOCAL_DIRECTORY is not None:
        kwargs["local_directory"] = LOCAL_DIRECTORY

    async with Worker(SCHEDULER, **kwargs) as worker:
        thread_count = getattr(worker, "nthreads", None)
        if thread_count is None:
            thread_count = NTHREADS
        info = {
            "ok": True,
            "name": worker.name,
            "address": worker.address,
            "scheduler": SCHEDULER,
            "nthreads": thread_count,
        }
        print("DASK_WORKER_READY " + json.dumps(info), flush=True)
        # Run until the parent process terminates us (reliable on Windows).
        await asyncio.Future()

if __name__ == "__main__":
    try:
        asyncio.run(main())
    except Exception as exc:
        print("DASK_WORKER_ERROR " + json.dumps({"ok": False, "error": str(exc)}), flush=True)
        sys.exit(1)
"#);
    r
}

/// The text of the cluster_info script, given its already rendered parts.
pub open spec fn cluster_info_script_text(scheduler_address: Seq<char>) -> Seq<char> {
    r#"
import json
import sys


import sys
import logging

def _configure_logging(level_name):
    level = getattr(logging, level_name.upper(), logging.INFO)
    logging.basicConfig(
        level=level,
        stream=sys.stdout,
        format="%(levelname)s:%(name)s: %(message)s",
    )
    # Keep distributed chatter on stdout; stderr is reserved for real failures.
    for name in ("distributed", "dask"):
        logging.getLogger(name).setLevel(level)

_configure_logging("warning")

from distributed import Client

ADDRESS = "#@ + scheduler_address + r#"

try:
    with Client(ADDRESS, timeout="10s") as client:
        info = client.scheduler_info()
        workers = []
        total_cores = 0
        total_memory = 0
        for wid, w in info.get("workers", {}).items():
            nthreads = int(w.get("nthreads") or 0)
            mem_limit = int(w.get("memory_limit") or 0)
            metrics = w.get("metrics") or {}
            workers.append({
                "id": wid,
                "name": w.get("name") or wid,
                "address": w.get("address") or wid,
                "nthreads": nthreads,
                "memoryLimit": mem_limit,
                "memoryUsed": int(metrics.get("memory") or 0),
                "cpu": float(metrics.get("cpu") or 0.0),
                "status": w.get("status") or "unknown",
            })
            total_cores += nthreads
            total_memory += mem_limit

        processing = info.get("processing") or {}
        active = sum(len(v) for v in processing.values()) if isinstance(processing, dict) else 0

        out = {
            "ok": True,
            "address": info.get("address"),
            "workers": workers,
            "totalCores": total_cores,
            "totalMemory": total_memory,
            "activeTasks": active,
            "services": info.get("services") or {},
            "workerCount": len(workers),
        }
        print(json.dumps(out), flush=True)
except Exception as exc:
    print(json.dumps({"ok": False, "error": str(exc)}), flush=True)
    sys.exit(1)
"#@
}

/// Assembles the cluster_info script from its already rendered parts.
pub fn render_cluster_info_script(scheduler_address: &str) -> (r: String)
    ensures
        r@ == cluster_info_script_text(scheduler_address@),
{
    let mut r = String::from_str(r#"
import json
import sys


import sys
import logging

def _configure_logging(level_name):
    level = getattr(logging, level_name.upper(), logging.INFO)
    logging.basicConfig(
        level=level,
        stream=sys.stdout,
        format="%(levelname)s:%(name)s: %(message)s",
    )
    # Keep distributed chatter on stdout; stderr is reserved for real failures.
    for name in ("distributed", "dask"):
        logging.getLogger(name).setLevel(level)

_configure_logging("warning")

from distributed import Client

ADDRESS = "#);
    r.append(scheduler_address);
    r.append(r#"

try:
    with Client(ADDRESS, timeout="10s") as client:
        info = client.scheduler_info()
        workers = []
        total_cores = 0
        total_memory = 0
        for wid, w in info.get("workers", {}).items():
            nthreads = int(w.get("nthreads") or 0)
            mem_limit = int(w.get("memory_limit") or 0)
            metrics = w.get("metrics") or {}
            workers.append({
                "id": wid,
                "name": w.get("name") or wid,
                "address": w.get("address") or wid,
                "nthreads": nthreads,
                "memoryLimit": mem_limit,
                "memoryUsed": int(metrics.get("memory") or 0),
                "cpu": float(metrics.get("cpu") or 0.0),
                "status": w.get("status") or "unknown",
            })
            total_cores += nthreads
            total_memory += mem_limit

        processing = info.get("processing") or {}
        active = sum(len(v) for v in processing.values()) if isinstance(processing, dict) else 0

        out = {
            "ok": True,
            "address": info.get("address"),
            "workers": workers,
            "totalCores": total_cores,
            "totalMemory": total_memory,
            "activeTasks": active,
            "services": info.get("services") or {},
            "workerCount": len(workers),
        }
        print(json.dumps(out), flush=True)
except Exception as exc:
    print(json.dumps({"ok": False, "error": str(exc)}), flush=True)
    sys.exit(1)
"#);
    r
}

/// The text of the submit_function script, given its already rendered parts.
pub open spec fn submit_function_script_text(scheduler_address: Seq<char>, args_json: Seq<char>, function_body: Seq<char>) -> Seq<char> {
    r#"
import json
import time
import sys
from distributed import Client

ADDRESS = "#@ + scheduler_address + r#"
ARGS = json.loads("#@ + args_json + r#")

"#@ + function_body + r#"

try:
    started = time.time()
    with Client(ADDRESS, timeout="10s") as client:
        workers = len(client.scheduler_info().get("workers", {}))
        if workers == 0:
            raise RuntimeError(
                "No Dask workers connected. Start at least one worker on the Cluster page."
            )
        fut = client.submit(user_fn, *ARGS)
        result = fut.result(timeout=600)
        elapsed_ms = int((time.time() - started) * 1000)
        print(json.dumps({
            "ok": True,
            "result": result,
            "executionTimeMs": elapsed_ms,
            "workersUsed": workers,
        }, default=str))
except Exception as exc:
    print(json.dumps({"ok": False, "error": str(exc)}))
    sys.exit(1)
"#@
}

/// Assembles the submit_function script from its already rendered parts.
pub fn render_submit_function_script(scheduler_address: &str, args_json: &str, function_body: &str) -> (r: String)
    ensures
        r@ == submit_function_script_text(scheduler_address@, args_json@, function_body@),
{
    let mut r = String::from_str(r#"
import json
import time
import sys
from distributed import Client

ADDRESS = "#);
    r.append(scheduler_address);
    r.append(r#"
ARGS = json.loads("#);
    r.append(args_json);
    r.append(r#")

"#);
    r.append(function_body);
    r.append(r#"

try:
    started = time.time()
    with Client(ADDRESS, timeout="10s") as client:
        workers = len(client.scheduler_info().get("workers", {}))
        if workers == 0:
            raise RuntimeError(
                "No Dask workers connected. Start at least one worker on the Cluster page."
            )
        fut = client.submit(user_fn, *ARGS)
        result = fut.result(timeout=600)
        elapsed_ms = int((time.time() - started) * 1000)
        print(json.dumps({
            "ok": True,
            "result": result,
            "executionTimeMs": elapsed_ms,
            "workersUsed": workers,
        }, default=str))
except Exception as exc:
    print(json.dumps({"ok": False, "error": str(exc)}))
    sys.exit(1)
"#);
    r
}

/// The text of the orchestration script, given its already rendered parts.
pub open spec fn orchestration_script_text(scheduler_address: Seq<char>, args_json: Seq<char>, indented_body: Seq<char>) -> Seq<char> {
    r#"
import json
import time
import sys
from distributed import Client

ADDRESS = "#@ + scheduler_address + r#"
ARGS = json.loads("#@ + args_json + r#")

try:
    started = time.time()
    with Client(ADDRESS, timeout="10s") as client:

        workers = len(client.scheduler_info().get("workers", {}))
        if workers == 0:
            raise RuntimeError(
                "No Dask workers connected. Start at least one worker on the Cluster page."
            )
"#@ + indented_body + r#"
        elapsed_ms = int((time.time() - started) * 1000)
        print(json.dumps({
            "ok": True,
            "result": result,
            "executionTimeMs": elapsed_ms,
            "workersUsed": workers,
        }, default=str))
except Exception as exc:
    print(json.dumps({"ok": False, "error": str(exc)}))
    sys.exit(1)
"#@
}

/// Assembles the orchestration script from its already rendered parts.
pub fn render_orchestration_script(scheduler_address: &str, args_json: &str, indented_body: &str) -> (r: String)
    ensures
        r@ == orchestration_script_text(scheduler_address@, args_json@, indented_body@),
{
    let mut r = String::from_str(r#"
import json
import time
import sys
from distributed import Client

ADDRESS = "#);
    r.append(scheduler_address);
    r.append(r#"
ARGS = json.loads("#);
    r.append(args_json);
    r.append(r#")

try:
    started = time.time()
    with Client(ADDRESS, timeout="10s") as client:

        workers = len(client.scheduler_info().get("workers", {}))
        if workers == 0:
            raise RuntimeError(
                "No Dask workers connected. Start at least one worker on the Cluster page."
            )
"#);
    r.append(indented_body);
    r.append(r#"
        elapsed_ms = int((time.time() - started) * 1000)
        print(json.dumps({
            "ok": True,
            "result": result,
            "executionTimeMs": elapsed_ms,
            "workersUsed": workers,
        }, default=str))
except Exception as exc:
    print(json.dumps({"ok": False, "error": str(exc)}))
    sys.exit(1)
"#);
    r
}

/// The text of the map script, given its already rendered parts.
pub open spec fn map_script_text(scheduler_address: Seq<char>, items_json: Seq<char>, function_body: Seq<char>) -> Seq<char> {
    r#"
import json
import time
import sys
from distributed import Client

ADDRESS = "#@ + scheduler_address + r#"
ITEMS = json.loads("#@ + items_json + r#")

"#@ + function_body + r#"

try:
    started = time.time()
    with Client(ADDRESS, timeout="10s") as client:
        workers = len(client.scheduler_info().get("workers", {}))
        if workers == 0:
            raise RuntimeError(
                "No Dask workers connected. Start at least one worker on the Cluster page."
            )
        futures = client.map(user_fn, ITEMS)
        result = client.gather(futures)
        elapsed_ms = int((time.time() - started) * 1000)
        print(json.dumps({
            "ok": True,
            "result": result,
            "executionTimeMs": elapsed_ms,
            "workersUsed": workers,
        }, default=str))
except Exception as exc:
    print(json.dumps({"ok": False, "error": str(exc)}))
    sys.exit(1)
"#@
}

/// Assembles the map script from its already rendered parts.
pub fn render_map_script(scheduler_address: &str, items_json: &str, function_body: &str) -> (r: String)
    ensures
        r@ == map_script_text(scheduler_address@, items_json@, function_body@),
{
    let mut r = String::from_str(r#"
import json
import time
import sys
from distributed import Client

ADDRESS = "#);
    r.append(scheduler_address);
    r.append(r#"
ITEMS = json.loads("#);
    r.append(items_json);
    r.append(r#")

"#);
    r.append(function_body);
    r.append(r#"

try:
    started = time.time()
    with Client(ADDRESS, timeout="10s") as client:
        workers = len(client.scheduler_info().get("workers", {}))
        if workers == 0:
            raise RuntimeError(
                "No Dask workers connected. Start at least one worker on the Cluster page."
            )
        futures = client.map(user_fn, ITEMS)
        result = client.gather(futures)
        elapsed_ms = int((time.time() - started) * 1000)
        print(json.dumps({
            "ok": True,
            "result": result,
            "executionTimeMs": elapsed_ms,
            "workersUsed": workers,
        }, default=str))
except Exception as exc:
    print(json.dumps({"ok": False, "error": str(exc)}))
    sys.exit(1)
"#);
    r
}

// ───────────────────────── public builders ─────────────────────────

/// Long-lived scheduler process using `distributed.Scheduler`.
pub fn scheduler_script(host: &str, port: u16, dashboard_port: u16, log_level: &str) -> (r: String)
    ensures
        r@ == scheduler_script_text(
            debug_quoted(log_level@),
            debug_quoted(host@),
            dec(port as nat),
            dec(dashboard_port as nat),
        ),
{
    let level_lit = debug_str(log_level);
    let host_lit = debug_str(host);
    let port_text = decimal(port as u64);
    let dash_text = decimal(dashboard_port as u64);
    render_scheduler_script(level_lit.as_str(), host_lit.as_str(), port_text.as_str(), dash_text.as_str())
}

/// `None`, or the quoted text when it is not blank.
pub open spec fn optional_literal(s: Seq<char>) -> Seq<char> {
    if trim(s).len() == 0 {
        "None"@
    } else {
        debug_quoted(s)
    }
}

/// `None` for an automatic thread count, else the count.
pub open spec fn thread_count_literal(n: nat) -> Seq<char> {
    if n == 0 {
        "None"@
    } else {
        dec(n)
    }
}

fn optional_literal_of(s: &str) -> (r: String)
    ensures
        r@ == optional_literal(s@),
{
    if is_blank(s) {
        String::from_str("None")
    } else {
        debug_str(s)
    }
}

/// Long-lived worker process using `distributed.Worker`.
pub fn worker_script(
    scheduler_address: &str,
    name: &str,
    nthreads: usize,
    memory_limit: &str,
    local_directory: &str,
    log_level: &str,
) -> (r: String)
    ensures
        r@ == worker_script_text(
            debug_quoted(log_level@),
            debug_quoted(scheduler_address@),
            debug_quoted(name@),
            thread_count_literal(nthreads as nat),
            optional_literal(memory_limit@),
            optional_literal(local_directory@),
        ),
{
    let nthreads_expr = if nthreads == 0 {
        String::from_str("None")
    } else {
        decimal(nthreads as u64)
    };
    let memory_expr = optional_literal_of(memory_limit);
    let local_dir_expr = optional_literal_of(local_directory);
    let level_lit = debug_str(log_level);
    let addr_lit = debug_str(scheduler_address);
    let name_lit = debug_str(name);
    render_worker_script(
        level_lit.as_str(),
        addr_lit.as_str(),
        name_lit.as_str(),
        nthreads_expr.as_str(),
        memory_expr.as_str(),
        local_dir_expr.as_str(),
    )
}

/// One-shot client probe: cluster info via `distributed.Client`.
pub fn cluster_info_script(scheduler_address: &str) -> (r: String)
    ensures
        r@ == cluster_info_script_text(debug_quoted(scheduler_address@)),
{
    let addr_lit = debug_str(scheduler_address);
    render_cluster_info_script(addr_lit.as_str())
}

/// Submit an arbitrary Python function body as a Dask future.
pub fn submit_function_script(scheduler_address: &str, function_body: &str, args_json: &str) -> (r:
    String)
    ensures
        r@ == submit_function_script_text(
            debug_quoted(scheduler_address@),
            debug_quoted(args_json@),
            function_body@,
        ),
{
    let addr_lit = debug_str(scheduler_address);
    let args_lit = debug_str(args_json);
    render_submit_function_script(addr_lit.as_str(), args_lit.as_str(), function_body)
}

/// Map a function over an iterable via Client.map.
pub fn map_script(scheduler_address: &str, function_body: &str, items_json: &str) -> (r: String)
    ensures
        r@ == map_script_text(
            debug_quoted(scheduler_address@),
            debug_quoted(items_json@),
            function_body@,
        ),
{
    let addr_lit = debug_str(scheduler_address);
    let items_lit = debug_str(items_json);
    render_map_script(addr_lit.as_str(), items_lit.as_str(), function_body)
}

// ───────────────────────── orchestration body ─────────────────────────

/// `s` with every `c` removed.
pub open spec fn remove_char(s: Seq<char>, c: char) -> Seq<char>
    decreases s.len(),
{
    if s.len() == 0 {
        s
    } else if s.last() == c {
        remove_char(s.drop_last(), c)
    } else {
        remove_char(s.drop_last(), c).push(s.last())
    }
}

/// A body line indented into the client block; blank lines become empty.
pub open spec fn indent_line(l: Seq<char>) -> Seq<char> {
    if trim(l).len() == 0 {
        Seq::empty()
    } else {
        "        "@ + l
    }
}

/// The body with carriage returns removed, each line indented by eight spaces
/// (blank lines emptied), joined by newlines.
pub open spec fn indented_text(body: Seq<char>) -> Seq<char> {
    let ls = lines(remove_char(body, '\r'));
    join(Seq::new(ls.len(), |k: int| indent_line(ls[k])), "\n"@)
}

pub fn indent_body(body: &str) -> (r: String)
    ensures
        r@ == indented_text(body@),
{
    let v = chars_of(body);
    let mut w: Vec<char> = Vec::new();
    let mut i: usize = 0;
    while i < v.len()
        invariant
            i <= v@.len(),
            v@ == body@,
            w@ == remove_char(v@.take(i as int), '\r'),
        decreases v@.len() - i,
    {
        assert(v@.take(i + 1).drop_last() =~= v@.take(i as int));
        if v[i] != '\r' {
            w.push(v[i]);
        }
        i = i + 1;
    }
    assert(v@.take(v@.len() as int) =~= v@);
    let bounds = line_bounds(&w);
    let ghost ls = lines(w@);
    let mut out: Vec<String> = Vec::new();
    let mut k: usize = 0;
    while k < bounds.len()
        invariant
            k <= bounds@.len() == ls.len(),
            ls == lines(w@),
            forall|j: int|
                0 <= j < bounds@.len() ==> {
                    &&& (#[trigger] bounds@[j]).0 <= bounds@[j].1 <= w@.len()
                    &&& w@.subrange(bounds@[j].0 as int, bounds@[j].1 as int) == ls[j]
                },
            string_views(out@) == Seq::new(k as nat, |j: int| indent_line(ls[j])),
        decreases bounds@.len() - k,
    {
        let b = bounds[k];
        let (t0, t1) = trim_bounds(&w, b.0, b.1);
        let ghost prev = string_views(out@);
        if t0 == t1 {
            let line = String::new();
            assert(line@ =~= indent_line(ls[k as int]));
            out.push(line);
            assert(string_views(out@) =~= prev.push(indent_line(ls[k as int])));
        } else {
            let mut line = String::from_str("        ");
            let text = string_of_range(&w, b.0, b.1);
            line.append(text.as_str());
            assert(line@ =~= indent_line(ls[k as int]));
            out.push(line);
            assert(string_views(out@) =~= prev.push(indent_line(ls[k as int])));
        }
        assert(string_views(out@) =~= Seq::new((k + 1) as nat, |j: int| indent_line(ls[j])));
        k = k + 1;
    }
    join_strings(&out, "\n")
}

/// Run orchestration code in the client process (uses `client` + `ARGS`, sets `result`).
pub fn orchestration_script(scheduler_address: &str, body: &str, args_json: &str) -> (r: String)
    ensures
        r@ == orchestration_script_text(
            debug_quoted(scheduler_address@),
            debug_quoted(args_json@),
            indented_text(body@),
        ),
{
    let indented = indent_body(body);
    let addr_lit = debug_str(scheduler_address);
    let args_lit = debug_str(args_json);
    render_orchestration_script(addr_lit.as_str(), args_lit.as_str(), indented.as_str())
}

} // verus!
