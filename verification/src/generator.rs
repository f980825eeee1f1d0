use vstd::prelude::*;
use vstd::string::*;
use rand::rngs::StdRng;
use crate::database::lookup;
use crate::decimal::{decimal, u64_to_decimal, usize_to_decimal};
use crate::kv::opt_view;
use crate::random::gen_range_usize;
use crate::string_map::StringMap;

verus! {

/// An operation that a test client sends.
#[derive(Debug)]
pub enum Operation {
    Put { key: String, value: String },
    Get { key: String },
    Cas { key: String, expected: Option<String>, value: String },
}

/// The key an operation is about.
pub open spec fn op_key(op: Operation) -> Seq<char> {
    match op {
        Operation::Put { key, .. } => key@,
        Operation::Get { key } => key@,
        Operation::Cas { key, .. } => key@,
    }
}

/// Which kind of operation to produce next.
#[derive(Debug, Clone, Copy, PartialEq, Eq, Structural)]
pub enum OpKind {
    Read,
    Cas,
    Write,
}

/// The name of key number `i`: `k` followed by `i` in decimal.
pub open spec fn key_name(i: nat) -> Seq<char> {
    "k"@ + decimal(i)
}

/// The value written by operation number `n`: `v` followed by `n` in decimal.
pub open spec fn value_name(n: nat) -> Seq<char> {
    "v"@ + decimal(n)
}

/// Operations with different numbers write different values, so every value
/// a generator writes is written once.
pub proof fn lemma_values_unique(n: nat, m: nat)
    requires
        n != m,
    ensures
        value_name(n) != value_name(m),
{
    reveal_strlit("v");
    if value_name(n) == value_name(m) {
        assert(value_name(n).skip(1) =~= decimal(n));
        assert(value_name(m).skip(1) =~= decimal(m));
        crate::decimal::lemma_decimal_injective(n, m);
    }
}

/// The operation of the given kind on key number `key_index`, as operation
/// number `counter`, given the values last known to be written.
pub open spec fn op_spec(kind: OpKind, key_index: nat, counter: nat, known: Map<Seq<char>, Seq<char>>, op: Operation) -> bool {
    match kind {
        OpKind::Read => op matches Operation::Get { key } && key@ == key_name(key_index),
        OpKind::Cas => op matches Operation::Cas { key, expected, value } && key@ == key_name(key_index)
            && opt_view(expected) == lookup(known, key_name(key_index)) && value@ == value_name(counter),
        OpKind::Write => op matches Operation::Put { key, value } && key@ == key_name(key_index)
            && value@ == value_name(counter),
    }
}

/// Builds the operation of the given kind on key number `key_index` as
/// operation number `counter`: a compare-and-swap expects the value last known
/// to be written to the key.
pub fn build_op(kind: OpKind, key_index: usize, counter: u64, known_values: &StringMap) -> (op: Operation)
    ensures
        op_spec(kind, key_index as nat, counter as nat, known_values@, op),
{
    let key = String::from_str("k").concat(usize_to_decimal(key_index).as_str());
    match kind {
        OpKind::Read => Operation::Get { key },
        OpKind::Cas => {
            let expected = known_values.get(&key);
            let value = String::from_str("v").concat(u64_to_decimal(counter).as_str());
            Operation::Cas { key, expected, value }
        },
        OpKind::Write => {
            let value = String::from_str("v").concat(u64_to_decimal(counter).as_str());
            Operation::Put { key, value }
        },
    }
}

/// The part of the workload generator that picks keys and numbers values:
/// keys come from `k0` up to key number `key_range - 1`, and each operation
/// gets the next number.
pub struct Workload {
    pub key_range: usize,
    pub counter: u64,
    pub known_values: StringMap,
}

impl Workload {
    /// A workload over `key_range` keys, numbering from 0, that knows no
    /// written value yet.
    pub fn new(key_range: usize) -> (w: Self)
        ensures
            w.key_range == key_range,
            w.counter == 0,
            w.known_values@ == Map::<Seq<char>, Seq<char>>::empty(),
    {
        Workload { key_range, counter: 0, known_values: StringMap::new() }
    }

    /// The next operation, of the given kind, on a key drawn at random with
    /// `rng`.
    pub fn next_op(&mut self, kind: OpKind, rng: &mut StdRng) -> (op: Operation)
        requires
            old(self).key_range > 0,
            old(self).counter < u64::MAX,
        ensures
            final(self).key_range == old(self).key_range,
            final(self).counter == old(self).counter + 1,
            final(self).known_values@ == old(self).known_values@,
            exists|i: nat| i < old(self).key_range
                && op_spec(kind, i, old(self).counter as nat, old(self).known_values@, op),
    {
        let idx = gen_range_usize(rng, 0, self.key_range);
        let op = build_op(kind, idx, self.counter, &self.known_values);
        self.counter = self.counter + 1;
        op
    }
}

} // verus!
