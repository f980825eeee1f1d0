use vstd::prelude::*;
use vstd::string::*;
use crate::client::OpResult;
use crate::generator::{op_key, Operation};
use crate::history::{EventType, FunctionType, HistoryEvent};
use crate::kv::{clone_opt, opt_view};
use crate::string_map::StringMap;

verus! {

/// The function an operation stands for in the history.
pub open spec fn function_of(op: Operation) -> FunctionType {
    match op {
        Operation::Put { .. } => FunctionType::Write,
        Operation::Get { .. } => FunctionType::Read,
        Operation::Cas { .. } => FunctionType::Cas,
    }
}

/// The value an invocation records: what a write or compare-and-swap writes;
/// nothing for a read.
pub open spec fn invoke_value(op: Operation) -> Option<Seq<char>> {
    match op {
        Operation::Put { value, .. } => Some(value@),
        Operation::Get { .. } => None,
        Operation::Cas { value, .. } => Some(value@),
    }
}

/// The expected value a compare-and-swap records.
pub open spec fn invoke_expected(op: Operation) -> Option<Seq<char>> {
    match op {
        Operation::Cas { expected, .. } => opt_view(expected),
        _ => None,
    }
}

/// The event that records the invocation of `op` by `process`.
pub fn invoke_event(process: usize, op: &Operation) -> (e: HistoryEvent)
    ensures
        e.process == process,
        e.event_type == EventType::Invoke,
        e.function == function_of(*op),
        e.key@ == op_key(*op),
        opt_view(e.value) == invoke_value(*op),
        opt_view(e.expected) == invoke_expected(*op),
{
    match op {
        Operation::Put { key, value } => HistoryEvent {
            process,
            event_type: EventType::Invoke,
            function: FunctionType::Write,
            key: key.clone(),
            value: Some(value.clone()),
            expected: None,
        },
        Operation::Get { key } => HistoryEvent {
            process,
            event_type: EventType::Invoke,
            function: FunctionType::Read,
            key: key.clone(),
            value: None,
            expected: None,
        },
        Operation::Cas { key, expected, value } => HistoryEvent {
            process,
            event_type: EventType::Invoke,
            function: FunctionType::Cas,
            key: key.clone(),
            value: Some(value.clone()),
            expected: clone_opt(expected),
        },
    }
}

/// The event type that records how an operation ended: ok when confirmed,
/// fail when refused, info when the outcome is open.
pub open spec fn completion_type(r: OpResult) -> EventType {
    match r {
        OpResult::Success(_) => EventType::Success,
        OpResult::Fail(_) => EventType::Fail,
        OpResult::Indeterminate => EventType::Info,
    }
}

/// The value a completion records: for a confirmed read the value the server
/// returned, otherwise the value of the invocation.
pub open spec fn completion_value(op: Operation, r: OpResult) -> Option<Seq<char>> {
    match (r, op) {
        (OpResult::Success(v), Operation::Get { .. }) => opt_view(v),
        _ => invoke_value(op),
    }
}

/// The event that records how `op`, invoked by `process`, ended.
pub fn completion_event(process: usize, op: &Operation, result: &OpResult) -> (e: HistoryEvent)
    ensures
        e.process == process,
        e.event_type == completion_type(*result),
        e.function == function_of(*op),
        e.key@ == op_key(*op),
        opt_view(e.value) == completion_value(*op, *result),
        opt_view(e.expected) == invoke_expected(*op),
{
    let mut e = invoke_event(process, op);
    e.event_type = match result {
        OpResult::Success(_) => EventType::Success,
        OpResult::Fail(_) => EventType::Fail,
        OpResult::Indeterminate => EventType::Info,
    };
    match (result, op) {
        (OpResult::Success(v), Operation::Get { .. }) => {
            e.value = clone_opt(v);
        },
        _ => {},
    }
    e
}

/// The process id a client uses after an operation: a fresh one, `num_clients`
/// further on, once an outcome is left open; the same one otherwise.
pub fn next_process_id(process: usize, num_clients: usize, result: &OpResult) -> (p: usize)
    requires
        result is Indeterminate ==> process + num_clients <= usize::MAX,
    ensures
        p == (if result is Indeterminate { process + num_clients } else { process as int }),
{
    match result {
        OpResult::Indeterminate => process + num_clients,
        _ => process,
    }
}

/// Client `c` of `n` starts at process id `c` and moves on by `n`, so every
/// id it uses is `c` modulo `n`, and no two clients ever use the same id.
pub proof fn lemma_process_ids_disjoint(n: nat, c1: nat, c2: nat, k1: nat, k2: nat)
    requires
        c1 < n,
        c2 < n,
        c1 != c2,
    ensures
        c1 + k1 * n != c2 + k2 * n,
{
    if c1 + k1 * n == c2 + k2 * n {
        if k1 <= k2 {
            assert(c1 == c2 + (k2 - k1) * n) by (nonlinear_arith)
                requires c1 + k1 * n == c2 + k2 * n, k1 <= k2;
            assert((k2 - k1) * n == 0 || (k2 - k1) * n >= n) by (nonlinear_arith)
                requires k1 <= k2, n > 0;
        } else {
            assert(c2 == c1 + (k1 - k2) * n) by (nonlinear_arith)
                requires c1 + k1 * n == c2 + k2 * n, k2 < k1;
            assert((k1 - k2) * n >= n) by (nonlinear_arith)
                requires k2 < k1, n > 0;
        }
    }
}

/// The written value a client learns from a confirmed write or
/// compare-and-swap, which later compare-and-swaps on the key expect.
pub open spec fn learned(known: Map<Seq<char>, Seq<char>>, op: Operation, r: OpResult) -> Map<Seq<char>, Seq<char>> {
    match (r, op) {
        (OpResult::Success(_), Operation::Put { key, value }) => known.insert(key@, value@),
        (OpResult::Success(_), Operation::Cas { key, value, .. }) => known.insert(key@, value@),
        _ => known,
    }
}

/// Records the value that a confirmed write or compare-and-swap wrote.
pub fn learn_from_result(known_values: &mut StringMap, op: &Operation, result: &OpResult)
    ensures
        final(known_values)@ == learned(old(known_values)@, *op, *result),
{
    match (result, op) {
        (OpResult::Success(_), Operation::Put { key, value }) => {
            known_values.insert(key.clone(), value.clone());
        },
        (OpResult::Success(_), Operation::Cas { key, value, .. }) => {
            known_values.insert(key.clone(), value.clone());
        },
        _ => {},
    }
}

/// The path of the run summary: the history's path with `.edn` replaced by
/// `.summary.txt`, or with `.summary.txt` added when it does not end in
/// `.edn`.
pub open spec fn summary_path_spec(output: Seq<char>) -> Seq<char> {
    if output.len() >= 4 && output.subrange(output.len() - 4, output.len() as int) == ".edn"@ {
        output.subrange(0, output.len() - 4) + ".summary.txt"@
    } else {
        output + ".summary.txt"@
    }
}

/// The path of the run summary that goes with history file `output`.
pub fn summary_path(output: &str) -> (r: String)
    ensures
        r@ == summary_path_spec(output@),
{
    let n = output.unicode_len();
    if n >= 4 && String::from_str(output.substring_char(n - 4, n)) == String::from_str(".edn") {
        String::from_str(output.substring_char(0, n - 4)).concat(".summary.txt")
    } else {
        String::from_str(output).concat(".summary.txt")
    }
}

/// A completion records the value the operation writes, for every put and
/// compare-and-swap and whatever the result; for a read it records the
/// value the server returned when confirmed, and nothing otherwise.
pub proof fn lemma_completion_value(op: Operation, r: OpResult)
    ensures
        !(op is Get) ==> completion_value(op, r) == invoke_value(op),
        op matches Operation::Put { value, .. } ==> completion_value(op, r) == Some(value@),
        op matches Operation::Cas { value, .. } ==> completion_value(op, r) == Some(value@),
        op is Get ==> completion_value(op, r) == (match r {
            OpResult::Success(Some(v)) => Some(v@),
            _ => None::<Seq<char>>,
        }),
{
}

/// Only a confirmed write or compare-and-swap teaches the client anything:
/// it learns that its key now holds the value written. A failed or open
/// outcome, and any read, leave the known values as they were.
pub proof fn lemma_learned_only_confirmed(known: Map<Seq<char>, Seq<char>>, op: Operation, r: OpResult)
    ensures
        !(r is Success) ==> learned(known, op, r) == known,
        op is Get ==> learned(known, op, r) == known,
        op matches Operation::Put { key, value } ==> (r is Success ==> learned(known, op, r) == known.insert(
            key@,
            value@,
        )),
        op matches Operation::Cas { key, value, .. } ==> (r is Success ==> learned(known, op, r) == known.insert(
            key@,
            value@,
        )),
{
}

/// A completion is recorded as ok exactly for a confirmed operation, as
/// fail exactly for a refused one and as info exactly for an open outcome.
pub proof fn lemma_completion_type(r: OpResult)
    ensures
        (completion_type(r) == EventType::Success) <==> r is Success,
        (completion_type(r) == EventType::Fail) <==> r is Fail,
        (completion_type(r) == EventType::Info) <==> r is Indeterminate,
{
}

} // verus!
