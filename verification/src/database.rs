use vstd::prelude::*;
use crate::kv::{KVCommand, opt_view, clone_opt};
use crate::string_map::StringMap;

verus! {

/// The contents of the store: each key's current value.
pub type Store = Map<Seq<char>, Seq<char>>;

/// The value stored under `k`, if any.
pub open spec fn lookup(m: Store, k: Seq<char>) -> Option<Seq<char>> {
    if m.dom().contains(k) {
        Some(m[k])
    } else {
        None
    }
}

/// What applying a command reports.
pub enum CommandResult {
    WriteOk,
    ReadOk(Option<String>),
    CasOk,
    CasFailed { current: Option<String> },
}

/// The abstract form of a command's report.
pub enum ResultView {
    WriteOk,
    ReadOk(Option<Seq<char>>),
    CasOk,
    CasFailed(Option<Seq<char>>),
}

impl View for CommandResult {
    type V = ResultView;

    open spec fn view(&self) -> ResultView {
        match self {
            CommandResult::WriteOk => ResultView::WriteOk,
            CommandResult::ReadOk(v) => ResultView::ReadOk(opt_view(*v)),
            CommandResult::CasOk => ResultView::CasOk,
            CommandResult::CasFailed { current } => ResultView::CasFailed(opt_view(*current)),
        }
    }
}

/// The store after applying `c` to `m`.
pub open spec fn next_store(m: Store, c: KVCommand) -> Store {
    match c {
        KVCommand::Put(k, v) => m.insert(k@, v@),
        KVCommand::Delete(k) => m.remove(k@),
        KVCommand::Get(_) => m,
        KVCommand::Cas(k, expected, new_value) => if lookup(m, k@) == opt_view(expected) {
            m.insert(k@, new_value@)
        } else {
            m
        },
    }
}

/// What applying `c` to `m` reports.
pub open spec fn command_result(m: Store, c: KVCommand) -> ResultView {
    match c {
        KVCommand::Put(_, _) => ResultView::WriteOk,
        KVCommand::Delete(_) => ResultView::WriteOk,
        KVCommand::Get(k) => ResultView::ReadOk(lookup(m, k@)),
        KVCommand::Cas(k, expected, _) => if lookup(m, k@) == opt_view(expected) {
            ResultView::CasOk
        } else {
            ResultView::CasFailed(lookup(m, k@))
        },
    }
}

/// The replicated state machine: a map from keys to values.
pub struct Database {
    db: StringMap,
}

impl View for Database {
    type V = Store;

    closed spec fn view(&self) -> Store {
        self.db@
    }
}

impl Database {
    /// An empty store.
    pub fn new() -> (d: Self)
        ensures
            d@ == Store::empty(),
    {
        Database { db: StringMap::new() }
    }

    /// Applies a command to the store and reports its outcome.
    pub fn handle_command(&mut self, command: KVCommand) -> (r: CommandResult)
        ensures
            final(self)@ == next_store(old(self)@, command),
            r@ == command_result(old(self)@, command),
    {
        match command {
            KVCommand::Put(key, value) => {
                self.db.insert(key, value);
                CommandResult::WriteOk
            },
            KVCommand::Delete(key) => {
                self.db.remove(&key);
                CommandResult::WriteOk
            },
            KVCommand::Get(key) => {
                let value = self.db.get(&key);
                CommandResult::ReadOk(value)
            },
            KVCommand::Cas(key, expected, new_value) => {
                let current = self.db.get(&key);
                if opt_eq(&current, &expected) {
                    self.db.insert(key, new_value);
                    CommandResult::CasOk
                } else {
                    CommandResult::CasFailed { current }
                }
            },
        }
    }
}

/// Whether two optional strings are equal.
pub fn opt_eq(a: &Option<String>, b: &Option<String>) -> (r: bool)
    ensures
        r == (opt_view(*a) == opt_view(*b)),
{
    match (a, b) {
        (Some(x), Some(y)) => *x == *y,
        (None, None) => true,
        _ => false,
    }
}

/// A read that follows a write of the same key returns the written value.
pub proof fn lemma_read_after_write(m: Store, k: String, v: String, k2: String)
    requires
        k2@ == k@,
    ensures
        command_result(next_store(m, KVCommand::Put(k, v)), KVCommand::Get(k2))
            == ResultView::ReadOk(Some(v@)),
{
    assert(next_store(m, KVCommand::Put(k, v)).dom().contains(k2@));
}

/// A read leaves the store unchanged, and a write of one key leaves every
/// other key's value as it was.
pub proof fn lemma_frame(m: Store, c: KVCommand, other: Seq<char>)
    requires
        match c {
            KVCommand::Put(k, _) => k@ != other,
            KVCommand::Delete(k) => k@ != other,
            KVCommand::Get(_) => true,
            KVCommand::Cas(k, _, _) => k@ != other,
        },
    ensures
        lookup(next_store(m, c), other) == lookup(m, other),
        c is Get ==> next_store(m, c) == m,
{
}

/// Of two compare-and-swaps that expect the same current value, the first
/// succeeds and the second fails, reporting the value the first wrote.
pub proof fn lemma_cas_exactly_once(m: Store, k: String, expected: Option<String>, first: String, k2: String, second: String)
    requires
        k2@ == k@,
        lookup(m, k@) == opt_view(expected),
        opt_view(expected) != Some(first@),
    ensures
        command_result(m, KVCommand::Cas(k, expected, first)) == ResultView::CasOk,
        ({
            let m1 = next_store(m, KVCommand::Cas(k, expected, first));
            &&& command_result(m1, KVCommand::Cas(k2, expected, second)) == ResultView::CasFailed(Some(first@))
            &&& next_store(m1, KVCommand::Cas(k2, expected, second)) == m1
        }),
{
    let m1 = next_store(m, KVCommand::Cas(k, expected, first));
    assert(m1.dom().contains(k2@));
}

/// A compare-and-swap whose precondition fails changes nothing, so a
/// reported failure never took effect.
pub proof fn lemma_failed_cas_changes_nothing(m: Store, c: KVCommand)
    requires
        command_result(m, c) is CasFailed,
    ensures
        next_store(m, c) == m,
{
}

/// After a delete the key reads as absent, and a compare-and-swap that
/// expects absence then succeeds.
pub proof fn lemma_delete_then_read(m: Store, k: String, k2: String, v: String)
    requires
        k2@ == k@,
    ensures
        command_result(next_store(m, KVCommand::Delete(k)), KVCommand::Get(k2)) == ResultView::ReadOk(None),
        command_result(next_store(m, KVCommand::Delete(k)), KVCommand::Cas(k2, None, v)) == ResultView::CasOk,
{
}

/// The store after applying a log of commands in order, starting from `m`.
pub open spec fn apply_log(m: Store, log: Seq<KVCommand>) -> Store
    decreases log.len(),
{
    if log.len() == 0 {
        m
    } else {
        next_store(apply_log(m, log.drop_last()), log.last())
    }
}

/// Applying a log in two parts gives the same store as applying it whole.
pub proof fn lemma_apply_log_append(m: Store, a: Seq<KVCommand>, b: Seq<KVCommand>)
    ensures
        apply_log(m, a + b) == apply_log(apply_log(m, a), b),
    decreases b.len(),
{
    if b.len() == 0 {
        assert(a + b =~= a);
    } else {
        assert((a + b).drop_last() =~= a + b.drop_last());
        lemma_apply_log_append(m, a, b.drop_last());
    }
}

/// A compare-and-swap succeeds exactly when the key's current value is the
/// expected one (an absent key counting as expected `None`): it then
/// reports success and stores the new value. Otherwise it reports failure
/// with the key's current value and leaves the store as it was, on every
/// store.
pub proof fn lemma_cas_outcome(m: Store, k: String, expected: Option<String>, v: String)
    ensures
        ({
            let c = KVCommand::Cas(k, expected, v);
            let matches_current = if m.dom().contains(k@) {
                expected matches Some(x) && x@ == m[k@]
            } else {
                expected is None
            };
            &&& matches_current ==> command_result(m, c) == ResultView::CasOk && next_store(m, c) == m.insert(k@, v@)
            &&& !matches_current && m.dom().contains(k@) ==> command_result(m, c) == ResultView::CasFailed(Some(m[k@]))
                && next_store(m, c) == m
            &&& !matches_current && !m.dom().contains(k@) ==> command_result(m, c) == ResultView::CasFailed(None)
                && next_store(m, c) == m
        }),
{
}

/// A put stores its value and a delete drops its key, both reporting a
/// write; a read reports the key's current value, or none when the key is
/// absent, and changes nothing.
pub proof fn lemma_command_outcome(m: Store, c: KVCommand)
    ensures
        c matches KVCommand::Put(k, v) ==> command_result(m, c) == ResultView::WriteOk && next_store(m, c)
            == m.insert(k@, v@),
        c matches KVCommand::Delete(k) ==> command_result(m, c) == ResultView::WriteOk && next_store(m, c)
            == m.remove(k@) && !next_store(m, c).dom().contains(k@),
        c matches KVCommand::Get(k) ==> next_store(m, c) == m && command_result(m, c) == ResultView::ReadOk(
            if m.dom().contains(k@) { Some(m[k@]) } else { None },
        ),
{
}

} // verus!
