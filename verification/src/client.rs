use vstd::prelude::*;
use vstd::string::*;
use crate::generator::Operation;
use crate::kv::{clone_opt, opt_view};
use crate::shim::{outcome_reply, KvRequest, OutcomeView};
use crate::kv::MessageView;

verus! {

/// How an operation sent to the cluster ended, as the client sees it.
#[derive(Debug)]
pub enum OpResult {
    /// The server confirmed the operation, with the value it read if any.
    Success(Option<String>),
    /// The server refused the operation; it did not take effect.
    Fail(String),
    /// No definite answer: the operation may or may not have taken effect.
    Indeterminate,
}

/// The request body for an operation.
pub open spec fn request_matches(op: Operation, req: KvRequest) -> bool {
    match op {
        Operation::Put { key, value } => req.op@ == "put"@ && req.key@ == key@ && opt_view(req.value) == Some(value@)
            && req.expected is None,
        Operation::Get { key } => req.op@ == "get"@ && req.key@ == key@ && req.value is None && req.expected is None,
        Operation::Cas { key, expected, value } => req.op@ == "cas"@ && req.key@ == key@
            && opt_view(req.value) == Some(value@) && opt_view(req.expected) == opt_view(expected),
    }
}

/// The request that asks the shim to carry out an operation.
pub fn request_for_operation(op: &Operation) -> (req: KvRequest)
    ensures
        request_matches(*op, req),
{
    match op {
        Operation::Put { key, value } => KvRequest {
            op: String::from_str("put"),
            key: key.clone(),
            value: Some(value.clone()),
            expected: None,
        },
        Operation::Get { key } => KvRequest {
            op: String::from_str("get"),
            key: key.clone(),
            value: None,
            expected: None,
        },
        Operation::Cas { key, expected, value } => KvRequest {
            op: String::from_str("cas"),
            key: key.clone(),
            value: Some(value.clone()),
            expected: clone_opt(expected),
        },
    }
}

/// What came back from sending a request: nothing usable, or a reply body
/// with its `ok` flag (false when absent), its `value` (if a string) and its
/// `error` (empty when absent).
#[derive(Debug)]
pub enum ReplyOutcome {
    TransportFailed,
    Body { ok: bool, value: Option<String>, error: String },
}

/// The abstract form of an operation's result.
pub enum OpResultView {
    Success(Option<Seq<char>>),
    Fail(Seq<char>),
    Indeterminate,
}

impl View for OpResult {
    type V = OpResultView;

    open spec fn view(&self) -> OpResultView {
        match self {
            OpResult::Success(v) => OpResultView::Success(opt_view(*v)),
            OpResult::Fail(m) => OpResultView::Fail(m@),
            OpResult::Indeterminate => OpResultView::Indeterminate,
        }
    }
}

/// How the client reads a reply body, and whether it then moves on to the
/// next server: a confirmed reply succeeds; a timeout or an unavailable
/// cluster leaves the outcome open and moves on; any other error is a
/// failure.
pub open spec fn classify_body(ok: bool, value: Option<Seq<char>>, error: Seq<char>) -> (OpResultView, bool) {
    if ok {
        (OpResultView::Success(value), false)
    } else if error == "timeout"@ || error == "unavailable"@ {
        (OpResultView::Indeterminate, true)
    } else {
        (OpResultView::Fail(error), false)
    }
}

/// How the client reads what came back: no usable reply leaves the outcome
/// open and moves on to the next server.
pub open spec fn classify(o: ReplyOutcome) -> (OpResultView, bool) {
    match o {
        ReplyOutcome::TransportFailed => (OpResultView::Indeterminate, true),
        ReplyOutcome::Body { ok, value, error } => classify_body(ok, opt_view(value), error@),
    }
}

/// The `error` field as the client reads it: empty when absent.
pub open spec fn error_or_empty(e: Option<Seq<char>>) -> Seq<char> {
    match e {
        Some(m) => m,
        None => Seq::empty(),
    }
}

/// What the client makes of each answer the shim can give: confirmed
/// writes, reads and compare-and-swaps succeed (a read with the value read);
/// a compare-and-swap whose precondition failed is a failure; a timeout, a
/// dropped or closed queue, or an unavailable cluster leaves the outcome
/// open; any other server error is a failure.
pub proof fn lemma_client_reads_shim_reply(op: Seq<char>, key: Seq<char>, o: OutcomeView)
    ensures
        ({
            let resp = outcome_reply(op, key, o).1;
            classify_body(resp.ok, resp.value, error_or_empty(resp.error)).0 == match o {
                OutcomeView::Answered(MessageView::Write(_)) => OpResultView::Success(None),
                OutcomeView::Answered(MessageView::CasOk(_)) => OpResultView::Success(None),
                OutcomeView::Answered(MessageView::Read(_, v)) => OpResultView::Success(v),
                OutcomeView::Answered(MessageView::CasFailed(_, _)) => OpResultView::Fail("precondition-failed"@),
                OutcomeView::Answered(MessageView::Error(_, m)) => if m == "timeout"@ || m == "unavailable"@ {
                    OpResultView::Indeterminate
                } else {
                    OpResultView::Fail(m)
                },
                _ => OpResultView::Indeterminate,
            }
        }),
{
    reveal_strlit("precondition-failed");
    reveal_strlit("timeout");
    reveal_strlit("unavailable");
    assert("precondition-failed"@[0] != "timeout"@[0] && "precondition-failed"@[0] != "unavailable"@[0]);
}

/// Reads what came back for a request.
pub fn classify_reply(outcome: ReplyOutcome) -> (r: (OpResult, bool))
    ensures
        (r.0@, r.1) == classify(outcome),
{
    match outcome {
        ReplyOutcome::TransportFailed => (OpResult::Indeterminate, true),
        ReplyOutcome::Body { ok, value, error } => {
            if ok {
                (OpResult::Success(value), false)
            } else if error == String::from_str("timeout") || error == String::from_str("unavailable") {
                (OpResult::Indeterminate, true)
            } else {
                (OpResult::Fail(error), false)
            }
        },
    }
}

/// The servers a client talks to, and the one it talks to now.
pub struct ServerRing {
    servers: Vec<String>,
    current: usize,
}

impl ServerRing {
    #[verifier::type_invariant]
    spec fn inv(&self) -> bool {
        self.current < self.servers@.len()
    }

    /// The servers' base URLs.
    pub closed spec fn servers(&self) -> Seq<String> {
        self.servers@
    }

    /// The position of the server talked to now.
    pub closed spec fn current(&self) -> nat {
        self.current as nat
    }

    /// A ring over `servers` that starts at `start`.
    pub fn new(servers: Vec<String>, start: usize) -> (r: Self)
        requires
            start < servers@.len(),
        ensures
            r.servers() == servers@,
            r.current() == start,
    {
        ServerRing { servers, current: start }
    }

    /// The position of the server talked to now.
    pub fn current_index(&self) -> (i: usize)
        ensures
            i == self.current(),
            i < self.servers().len(),
    {
        proof {
            use_type_invariant(self);
        }
        self.current
    }

    /// The URL of the key-value endpoint of the server talked to now.
    pub fn kv_url(&self) -> (u: String)
        ensures
            self.current() < self.servers().len(),
            u@ == self.servers()[self.current() as int]@ + "/kv"@,
    {
        proof {
            use_type_invariant(self);
        }
        self.servers[self.current].clone().concat("/kv")
    }

    /// Reads what came back for a request and, when the outcome is left open,
    /// moves on to the next server.
    pub fn read_reply(&mut self, outcome: ReplyOutcome) -> (r: OpResult)
        ensures
            r@ == classify(outcome).0,
            final(self).servers() == old(self).servers(),
            final(self).current() == (if classify(outcome).1 {
                (old(self).current() + 1) % old(self).servers().len()
            } else {
                old(self).current()
            }),
            final(self).current() < final(self).servers().len(),
            (r is Indeterminate) == classify(outcome).1,
    {
        proof {
            use_type_invariant(&*self);
            reveal_strlit("timeout");
            reveal_strlit("unavailable");
        }
        let (result, rotate) = classify_reply(outcome);
        if rotate {
            self.rotate();
        }
        proof {
            use_type_invariant(&*self);
        }
        result
    }

    /// Moves on to the next server, wrapping around after the last.
    pub fn rotate(&mut self)
        ensures
            final(self).servers() == old(self).servers(),
            final(self).current() == (old(self).current() + 1) % old(self).servers().len(),
    {
        proof {
            use_type_invariant(&*self);
        }
        let n = self.servers.len();
        let c = self.current;
        assert(c < n);
        self.current = (c + 1) % n;
    }
}

/// After as many rotations as there are servers, a ring is back where it
/// started.
pub proof fn lemma_rotation_returns(start: nat, len: nat, k: nat)
    requires
        start < len,
    ensures
        rotated(start, len, len) == start,
        rotated(start, len, k) < len,
{
    vstd::arithmetic::div_mod::lemma_mod_add_multiples_vanish(start as int, len as int);
    vstd::arithmetic::div_mod::lemma_small_mod(start, len);
    assert(start + len == len + start);
    lemma_rotated_closed(start, len, len);
    lemma_rotated_closed(start, len, k);
    vstd::arithmetic::div_mod::lemma_mod_bound((start + k) as int, len as int);
}

/// The position after `k` rotations from `start` among `len` servers.
pub open spec fn rotated(start: nat, len: nat, k: nat) -> nat
    decreases k,
{
    if k == 0 {
        start
    } else {
        (rotated(start, len, (k - 1) as nat) + 1) % len
    }
}

proof fn lemma_rotated_closed(start: nat, len: nat, k: nat)
    requires
        start < len,
    ensures
        rotated(start, len, k) == (start + k) % len,
    decreases k,
{
    if k > 0 {
        lemma_rotated_closed(start, len, (k - 1) as nat);
        vstd::arithmetic::div_mod::lemma_add_mod_noop_right(1, (start + k - 1) as int, len as int);
    } else {
        vstd::arithmetic::div_mod::lemma_small_mod(start, len);
    }
}

} // verus!
