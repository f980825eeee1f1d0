use vstd::prelude::*;
use vstd::string::*;
use crate::kv::{clone_opt, opt_view, CommandId, KVCommand, MessageView, ServerMessage};

verus! {

/// A request to the HTTP shim: an operation name, a key, and the values the
/// operation needs.
#[derive(Debug)]
pub struct KvRequest {
    pub op: String,
    pub key: String,
    pub value: Option<String>,
    pub expected: Option<String>,
}

/// The shim's answer to a request.
#[derive(Debug)]
pub struct KvResponse {
    pub op: String,
    pub ok: bool,
    pub key: String,
    pub value: Option<String>,
    pub error: Option<String>,
}

/// The abstract form of a response.
pub struct ResponseView {
    pub op: Seq<char>,
    pub ok: bool,
    pub key: Seq<char>,
    pub value: Option<Seq<char>>,
    pub error: Option<Seq<char>>,
}

impl View for KvResponse {
    type V = ResponseView;

    open spec fn view(&self) -> ResponseView {
        ResponseView {
            op: self.op@,
            ok: self.ok,
            key: self.key@,
            value: opt_view(self.value),
            error: opt_view(self.error),
        }
    }
}

/// The HTTP status with which the shim answers.
#[derive(Debug, Clone, Copy, PartialEq, Eq, Structural)]
pub enum HttpStatus {
    Success,
    BadRequest,
    ServiceUnavailable,
}

impl HttpStatus {
    /// The status code on the wire.
    pub fn code(&self) -> (c: u16)
        ensures
            c == (match self {
                HttpStatus::Success => 200u16,
                HttpStatus::BadRequest => 400u16,
                HttpStatus::ServiceUnavailable => 503u16,
            }),
    {
        match self {
            HttpStatus::Success => 200,
            HttpStatus::BadRequest => 400,
            HttpStatus::ServiceUnavailable => 503,
        }
    }
}

/// A response that carries no value.
pub open spec fn plain_response(op: Seq<char>, ok: bool, key: Seq<char>, error: Option<Seq<char>>) -> ResponseView {
    ResponseView { op, ok, key, value: None, error }
}

/// Whether the request names an operation that the shim serves with all it
/// needs: a put or a compare-and-swap with a value, or a get.
pub open spec fn request_accepted(req: KvRequest) -> bool {
    ||| (req.op@ == "put"@ && req.value is Some)
    ||| req.op@ == "get"@
    ||| (req.op@ == "cas"@ && req.value is Some)
}

/// The answer to a request that the shim refuses.
pub open spec fn refusal(req: KvRequest) -> ResponseView {
    if req.op@ == "put"@ {
        plain_response(req.op@, false, req.key@, Some("missing 'value' for put"@))
    } else if req.op@ == "cas"@ {
        plain_response(req.op@, false, req.key@, Some("missing 'value' for cas"@))
    } else {
        plain_response(req.op@, false, req.key@, Some("unknown op: "@ + req.op@))
    }
}

/// The command that an accepted request asks for.
pub open spec fn command_matches(req: KvRequest, c: KVCommand) -> bool {
    match c {
        KVCommand::Put(k, v) => req.op@ == "put"@ && k@ == req.key@ && opt_view(req.value) == Some(v@),
        KVCommand::Get(k) => req.op@ == "get"@ && k@ == req.key@,
        KVCommand::Cas(k, e, v) => req.op@ == "cas"@ && k@ == req.key@
            && opt_view(req.value) == Some(v@) && opt_view(e) == opt_view(req.expected),
        KVCommand::Delete(_) => false,
    }
}

/// Turns a request into the command to order, or into the refusal to send back.
pub fn command_for_request(req: &KvRequest) -> (r: Result<KVCommand, (HttpStatus, KvResponse)>)
    ensures
        r is Ok <==> request_accepted(*req),
        match r {
            Ok(c) => command_matches(*req, c),
            Err((status, resp)) => status == HttpStatus::BadRequest && resp@ == refusal(*req),
        },
{
    proof {
        reveal_strlit("put");
        reveal_strlit("get");
        reveal_strlit("cas");
        assert("put"@[0] != "get"@[0] && "put"@[0] != "cas"@[0] && "get"@[0] != "cas"@[0]);
    }
    let put = String::from_str("put");
    let get = String::from_str("get");
    let cas = String::from_str("cas");
    if req.op == put {
        match &req.value {
            Some(v) => Ok(KVCommand::Put(req.key.clone(), v.clone())),
            None => Err((HttpStatus::BadRequest, KvResponse {
                op: req.op.clone(),
                ok: false,
                key: req.key.clone(),
                value: None,
                error: Some(String::from_str("missing 'value' for put")),
            })),
        }
    } else if req.op == get {
        Ok(KVCommand::Get(req.key.clone()))
    } else if req.op == cas {
        match &req.value {
            Some(v) => Ok(KVCommand::Cas(req.key.clone(), clone_opt(&req.expected), v.clone())),
            None => Err((HttpStatus::BadRequest, KvResponse {
                op: req.op.clone(),
                ok: false,
                key: req.key.clone(),
                value: None,
                error: Some(String::from_str("missing 'value' for cas")),
            })),
        }
    } else {
        let msg = String::from_str("unknown op: ").concat(req.op.as_str());
        Err((HttpStatus::BadRequest, KvResponse {
            op: req.op.clone(),
            ok: false,
            key: req.key.clone(),
            value: None,
            error: Some(msg),
        }))
    }
}

/// What became of a command handed to the server loop.
#[derive(Debug)]
pub enum ShimOutcome {
    /// The server loop no longer takes requests.
    QueueClosed,
    /// The server dropped the responder without answering.
    ResponderDropped,
    /// No answer came within the shim's time limit.
    TimedOut,
    /// The server answered.
    Answered(ServerMessage),
}

/// The abstract form of an outcome.
pub enum OutcomeView {
    QueueClosed,
    ResponderDropped,
    TimedOut,
    Answered(MessageView),
}

impl View for ShimOutcome {
    type V = OutcomeView;

    open spec fn view(&self) -> OutcomeView {
        match self {
            ShimOutcome::QueueClosed => OutcomeView::QueueClosed,
            ShimOutcome::ResponderDropped => OutcomeView::ResponderDropped,
            ShimOutcome::TimedOut => OutcomeView::TimedOut,
            ShimOutcome::Answered(m) => OutcomeView::Answered(m@),
        }
    }
}

/// The status and response with which the shim answers a request for
/// operation `op` on `key`, given what became of its command.
pub open spec fn outcome_reply(op: Seq<char>, key: Seq<char>, o: OutcomeView) -> (HttpStatus, ResponseView) {
    match o {
        OutcomeView::QueueClosed => (HttpStatus::ServiceUnavailable, plain_response(op, false, key, Some("unavailable"@))),
        OutcomeView::ResponderDropped => (HttpStatus::Success, plain_response(op, false, key, Some("unavailable"@))),
        OutcomeView::TimedOut => (HttpStatus::Success, plain_response(op, false, key, Some("timeout"@))),
        OutcomeView::Answered(m) => (HttpStatus::Success, match m {
            MessageView::Write(_) => plain_response(op, true, key, None),
            MessageView::Read(_, v) => ResponseView { op, ok: true, key, value: v, error: None },
            MessageView::CasOk(_) => plain_response(op, true, key, None),
            MessageView::CasFailed(_, current) => ResponseView {
                op,
                ok: false,
                key,
                value: current,
                error: Some("precondition-failed"@),
            },
            MessageView::Error(_, msg) => plain_response(op, false, key, Some(msg)),
            MessageView::StartSignal(_) => plain_response(op, false, key, Some("unavailable"@)),
        }),
    }
}

/// Builds the shim's answer to a request for operation `op` on `key`.
pub fn reply_for_outcome(op: String, key: String, outcome: ShimOutcome) -> (r: (HttpStatus, KvResponse))
    ensures
        r.0 == outcome_reply(op@, key@, outcome@).0,
        r.1@ == outcome_reply(op@, key@, outcome@).1,
{
    match outcome {
        ShimOutcome::QueueClosed => (HttpStatus::ServiceUnavailable, KvResponse {
            op,
            ok: false,
            key,
            value: None,
            error: Some(String::from_str("unavailable")),
        }),
        ShimOutcome::ResponderDropped => (HttpStatus::Success, KvResponse {
            op,
            ok: false,
            key,
            value: None,
            error: Some(String::from_str("unavailable")),
        }),
        ShimOutcome::TimedOut => (HttpStatus::Success, KvResponse {
            op,
            ok: false,
            key,
            value: None,
            error: Some(String::from_str("timeout")),
        }),
        ShimOutcome::Answered(msg) => {
            let response = match msg {
                ServerMessage::Write(_) => KvResponse { op, ok: true, key, value: None, error: None },
                ServerMessage::Read(_, value) => KvResponse { op, ok: true, key, value, error: None },
                ServerMessage::CasOk(_) => KvResponse { op, ok: true, key, value: None, error: None },
                ServerMessage::CasFailed(_, current) => KvResponse {
                    op,
                    ok: false,
                    key,
                    value: current,
                    error: Some(String::from_str("precondition-failed")),
                },
                ServerMessage::Error(_, m) => KvResponse { op, ok: false, key, value: None, error: Some(m) },
                ServerMessage::StartSignal(_) => KvResponse {
                    op,
                    ok: false,
                    key,
                    value: None,
                    error: Some(String::from_str("unavailable")),
                },
            };
            (HttpStatus::Success, response)
        },
    }
}

/// The first command id that the shim hands out.
pub const FIRST_COMMAND_ID: usize = 1;

/// The counter after handing out id `n`: one more, wrapping around after the
/// largest `usize`.
pub open spec fn id_step(n: usize) -> usize {
    if n == usize::MAX {
        0
    } else {
        (n + 1) as usize
    }
}

/// The counter after `k` ids were handed out one after another from `start`;
/// it is also the id that call number `k` (from 0) hands out.
pub open spec fn counter_after(start: usize, k: nat) -> usize
    decreases k,
{
    if k == 0 {
        start
    } else {
        id_step(counter_after(start, (k - 1) as nat))
    }
}

/// Hands out the next command id from `next`; ids wrap around after the
/// largest `usize`.
pub fn next_command_id(next: &mut usize) -> (id: CommandId)
    ensures
        id == *old(next),
        *final(next) == id_step(*old(next)),
{
    let id = *next;
    *next = if id == usize::MAX { 0 } else { id + 1 };
    id
}

/// Ids handed out one after another from the first id: call number `k`
/// (from 0) returns `k + 1`, so ids start at 1, count up by one and, while
/// fewer than `usize::MAX` calls are made, never repeat.
pub proof fn lemma_sequential_ids(k: nat, l: nat)
    requires
        k < l < usize::MAX,
    ensures
        counter_after(FIRST_COMMAND_ID, k) == k + 1,
        counter_after(FIRST_COMMAND_ID, l) == l + 1,
        counter_after(FIRST_COMMAND_ID, k) != counter_after(FIRST_COMMAND_ID, l),
{
    lemma_counter_counts_up(k);
    lemma_counter_counts_up(l);
}

proof fn lemma_counter_counts_up(k: nat)
    requires
        k < usize::MAX,
    ensures
        counter_after(FIRST_COMMAND_ID, k) == k + 1,
    decreases k,
{
    if k > 0 {
        lemma_counter_counts_up((k - 1) as nat);
    }
}

/// The shim answers with status 503 only when the request never reached the
/// server loop; every other outcome, and in particular every answer from the
/// server, is sent with status 200. The response always echoes the
/// operation and key, and reports success exactly for a write, a read or a
/// successful compare-and-swap.
pub proof fn lemma_reply_status(op: Seq<char>, key: Seq<char>, o: OutcomeView)
    ensures
        outcome_reply(op, key, o).0 == (if o is QueueClosed {
            HttpStatus::ServiceUnavailable
        } else {
            HttpStatus::Success
        }),
        o is Answered ==> outcome_reply(op, key, o).0 == HttpStatus::Success,
        outcome_reply(op, key, o).1.op == op,
        outcome_reply(op, key, o).1.key == key,
        outcome_reply(op, key, o).1.ok <==> (o matches OutcomeView::Answered(m) && (m is Write || m is Read
            || m is CasOk)),
        o matches OutcomeView::Answered(MessageView::Read(_, v)) ==> outcome_reply(op, key, o).1.value == v,
        o matches OutcomeView::Answered(MessageView::CasFailed(_, cur)) ==> outcome_reply(op, key, o).1.value == cur,
{
}

} // verus!
