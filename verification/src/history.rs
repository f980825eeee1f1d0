use vstd::prelude::*;
use vstd::string::*;
use crate::decimal::{decimal, usize_to_decimal};
use crate::kv::opt_view;

verus! {

/// The kind of a history event: an operation's invocation or how it completed.
#[derive(Debug, Clone, Copy, PartialEq, Eq, Structural)]
pub enum EventType {
    Invoke,
    Success,
    Fail,
    Info,
}

/// The operation an event belongs to.
#[derive(Debug, Clone, Copy, PartialEq, Eq, Structural)]
pub enum FunctionType {
    Read,
    Write,
    Cas,
}

/// One event of a client's history.
#[derive(Debug)]
pub struct HistoryEvent {
    pub process: usize,
    pub event_type: EventType,
    pub function: FunctionType,
    pub key: String,
    pub value: Option<String>,
    pub expected: Option<String>,
}

/// The events recorded by the test clients, in the order they were recorded.
pub struct History {
    events: Vec<HistoryEvent>,
}

/// How many events of `s` have type `t`.
pub open spec fn count_type(s: Seq<HistoryEvent>, t: EventType) -> nat
    decreases s.len(),
{
    if s.len() == 0 {
        0
    } else {
        count_type(s.drop_last(), t) + if s.last().event_type == t { 1nat } else { 0nat }
    }
}

/// Every event has one of the four types, so the four counts add up to the
/// number of events.
pub proof fn lemma_counts_sum(s: Seq<HistoryEvent>)
    ensures
        count_type(s, EventType::Invoke) + count_type(s, EventType::Success) + count_type(s, EventType::Fail)
            + count_type(s, EventType::Info) == s.len(),
    decreases s.len(),
{
    if s.len() > 0 {
        lemma_counts_sum(s.drop_last());
    }
}

/// Recording an event adds one to the count of its type and leaves the other
/// counts as they were.
pub proof fn lemma_record_counts(s: Seq<HistoryEvent>, e: HistoryEvent, t: EventType)
    ensures
        count_type(s.push(e), t) == count_type(s, t) + if e.event_type == t { 1nat } else { 0nat },
{
    assert(s.push(e).drop_last() =~= s);
}

/// The EDN form of an optional string: the string in double quotes, or nil.
pub open spec fn edn_string(s: Option<Seq<char>>) -> Seq<char> {
    match s {
        Some(v) => "\""@ + v + "\""@,
        None => "nil"@,
    }
}

/// The EDN keyword of an event type.
pub open spec fn type_keyword(t: EventType) -> Seq<char> {
    match t {
        EventType::Invoke => ":invoke"@,
        EventType::Success => ":ok"@,
        EventType::Fail => ":fail"@,
        EventType::Info => ":info"@,
    }
}

/// The EDN keyword of an operation.
pub open spec fn function_keyword(f: FunctionType) -> Seq<char> {
    match f {
        FunctionType::Read => ":read"@,
        FunctionType::Write => ":write"@,
        FunctionType::Cas => ":cas"@,
    }
}

/// The EDN vector of an event's arguments: key and value, and for a
/// compare-and-swap key, expected value and new value.
pub open spec fn value_edn(e: HistoryEvent) -> Seq<char> {
    match e.function {
        FunctionType::Cas => "["@ + edn_string(Some(e.key@)) + " "@ + edn_string(opt_view(e.expected)) + " "@
            + edn_string(opt_view(e.value)) + "]"@,
        _ => "["@ + edn_string(Some(e.key@)) + " "@ + edn_string(opt_view(e.value)) + "]"@,
    }
}

/// The EDN line of one event.
pub open spec fn edn_line(e: HistoryEvent) -> Seq<char> {
    " {:process "@ + decimal(e.process as nat) + " :type "@ + type_keyword(e.event_type) + " :f "@
        + function_keyword(e.function) + " :value "@ + value_edn(e) + "}\n"@
}

/// The EDN lines of a sequence of events.
pub open spec fn edn_lines(s: Seq<HistoryEvent>) -> Seq<char>
    decreases s.len(),
{
    if s.len() == 0 {
        Seq::empty()
    } else {
        edn_lines(s.drop_last()) + edn_line(s.last())
    }
}

/// The EDN document of a history: a vector of event maps, one per line.
pub open spec fn edn_document(s: Seq<HistoryEvent>) -> Seq<char> {
    "[\n"@ + edn_lines(s) + "]\n"@
}

/// The EDN form of an optional string.
pub fn edn_str(s: Option<&str>) -> (r: String)
    ensures
        r@ == edn_string(match s {
            Some(v) => Some(v@),
            None => None,
        }),
{
    match s {
        Some(v) => String::from_str("\"").concat(v).concat("\""),
        None => String::from_str("nil"),
    }
}

fn type_kw(t: EventType) -> (s: &'static str)
    ensures
        s@ == type_keyword(t),
{
    match t {
        EventType::Invoke => ":invoke",
        EventType::Success => ":ok",
        EventType::Fail => ":fail",
        EventType::Info => ":info",
    }
}

fn function_kw(f: FunctionType) -> (s: &'static str)
    ensures
        s@ == function_keyword(f),
{
    match f {
        FunctionType::Read => ":read",
        FunctionType::Write => ":write",
        FunctionType::Cas => ":cas",
    }
}

fn as_str_opt(o: &Option<String>) -> (r: Option<&str>)
    ensures
        match r {
            Some(v) => opt_view(*o) == Some(v@),
            None => o is None,
        },
{
    match o {
        Some(s) => Some(s.as_str()),
        None => None,
    }
}

/// The EDN line of one event.
pub fn event_line(e: &HistoryEvent) -> (r: String)
    ensures
        r@ == edn_line(*e),
{
    let key = edn_str(Some(e.key.as_str()));
    let value = edn_str(as_str_opt(&e.value));
    let args = match e.function {
        FunctionType::Cas => {
            let exp = edn_str(as_str_opt(&e.expected));
            String::from_str("[").concat(key.as_str()).concat(" ").concat(exp.as_str()).concat(" ").concat(
                value.as_str(),
            ).concat("]")
        },
        _ => String::from_str("[").concat(key.as_str()).concat(" ").concat(value.as_str()).concat("]"),
    };
    assert(args@ =~= value_edn(*e));
    let line = String::from_str(" {:process ").concat(usize_to_decimal(e.process).as_str()).concat(
        " :type ",
    ).concat(type_kw(e.event_type)).concat(" :f ").concat(function_kw(e.function)).concat(
        " :value ",
    ).concat(args.as_str()).concat("}\n");
    assert(line@ =~= edn_line(*e));
    line
}

impl History {
    /// The recorded events.
    pub closed spec fn events(&self) -> Seq<HistoryEvent> {
        self.events@
    }

    /// An empty history.
    pub fn new() -> (h: Self)
        ensures
            h.events() == Seq::<HistoryEvent>::empty(),
    {
        History { events: Vec::new() }
    }

    /// Appends an event.
    pub fn record(&mut self, event: HistoryEvent)
        ensures
            final(self).events() == old(self).events().push(event),
    {
        self.events.push(event);
    }

    /// The number of recorded events.
    pub fn len(&self) -> (n: usize)
        ensures
            n == self.events().len(),
    {
        self.events.len()
    }

    /// The event at position `i`.
    pub fn event(&self, i: usize) -> (e: &HistoryEvent)
        requires
            i < self.events().len(),
        ensures
            *e == self.events()[i as int],
    {
        &self.events[i]
    }

    /// The numbers of invoke, ok, fail and info events.
    pub fn type_counts(&self) -> (r: (usize, usize, usize, usize))
        ensures
            r.0 == count_type(self.events(), EventType::Invoke),
            r.1 == count_type(self.events(), EventType::Success),
            r.2 == count_type(self.events(), EventType::Fail),
            r.3 == count_type(self.events(), EventType::Info),
    {
        let n = self.events.len();
        let mut invoke: usize = 0;
        let mut ok: usize = 0;
        let mut fail: usize = 0;
        let mut info: usize = 0;
        let mut i: usize = 0;
        while i < n
            invariant
                n == self.events@.len(),
                i <= n,
                invoke == count_type(self.events@.take(i as int), EventType::Invoke),
                ok == count_type(self.events@.take(i as int), EventType::Success),
                fail == count_type(self.events@.take(i as int), EventType::Fail),
                info == count_type(self.events@.take(i as int), EventType::Info),
            decreases n - i,
        {
            proof {
                let s = self.events@.take(i + 1);
                assert(s.drop_last() =~= self.events@.take(i as int));
                lemma_counts_sum(self.events@.take(i as int));
            }
            match self.events[i].event_type {
                EventType::Invoke => invoke = invoke + 1,
                EventType::Success => ok = ok + 1,
                EventType::Fail => fail = fail + 1,
                EventType::Info => info = info + 1,
            }
            i = i + 1;
        }
        assert(self.events@.take(n as int) =~= self.events@);
        (invoke, ok, fail, info)
    }

    /// The history as an EDN document that a linearizability checker reads:
    /// a vector with one event map per line.
    pub fn to_edn(&self) -> (r: String)
        ensures
            r@ == edn_document(self.events()),
    {
        let n = self.events.len();
        let mut out = String::from_str("[\n");
        let mut i: usize = 0;
        while i < n
            invariant
                n == self.events@.len(),
                i <= n,
                out@ == "[\n"@ + edn_lines(self.events@.take(i as int)),
            decreases n - i,
        {
            let line = event_line(&self.events[i]);
            out.append(line.as_str());
            proof {
                let s = self.events@.take(i + 1);
                assert(s.drop_last() =~= self.events@.take(i as int));
                assert(out@ =~= "[\n"@ + edn_lines(s));
            }
            i = i + 1;
        }
        out.append("]\n");
        assert(self.events@.take(n as int) =~= self.events@);
        out
    }
}

} // verus!
