use vstd::prelude::*;
use vstd::multiset::Multiset;
use rand::rngs::StdRng;
use crate::random::gen_range_usize;

verus! {

broadcast use vstd::seq_lib::group_to_multiset_ensures;

/// The names of a list of containers.
pub open spec fn names(s: Seq<String>) -> Seq<Seq<char>> {
    s.map_values(|x: String| x@)
}

/// The names of `s` that do not occur in `gone`, in order.
pub open spec fn without_all(s: Seq<Seq<char>>, gone: Seq<Seq<char>>) -> Seq<Seq<char>> {
    s.filter(|n: Seq<char>| !gone.contains(n))
}

proof fn lemma_names_push(s: Seq<String>, x: String)
    ensures
        names(s.push(x)) == names(s).push(x@),
{
    assert(names(s.push(x)) =~= names(s).push(x@));
}

/// A copy of a list of names.
pub fn copy_names(v: &Vec<String>) -> (r: Vec<String>)
    ensures
        r@ == v@,
{
    let mut r: Vec<String> = Vec::new();
    let n = v.len();
    let mut i: usize = 0;
    while i < n
        invariant
            n == v@.len(),
            i <= n,
            r@ == v@.take(i as int),
        decreases n - i,
    {
        r.push(v[i].clone());
        assert(r@ =~= v@.take(i + 1));
        i = i + 1;
    }
    assert(v@.take(n as int) =~= v@);
    r
}

/// Whether a list holds a name.
pub fn contains_name(v: &Vec<String>, name: &String) -> (b: bool)
    ensures
        b == names(v@).contains(name@),
{
    let n = v.len();
    let mut i: usize = 0;
    while i < n
        invariant
            n == v@.len(),
            i <= n,
            forall|j: int| 0 <= j < i ==> #[trigger] v@[j]@ != name@,
        decreases n - i,
    {
        if v[i] == *name {
            assert(names(v@)[i as int] == name@);
            return true;
        }
        i = i + 1;
    }
    assert forall|j: int| 0 <= j < names(v@).len() implies #[trigger] names(v@)[j] != name@ by {}
    false
}

/// Takes `count` names at random out of `candidates`, one after another, or
/// all of them if there are fewer. Returns the names taken, in the order
/// taken, and the names left.
pub fn take_random(rng: &mut StdRng, candidates: Vec<String>, count: usize) -> (r: (Vec<String>, Vec<String>))
    ensures
        r.0@.len() == if count < candidates@.len() { count as int } else { candidates@.len() as int },
        r.1@.len() == candidates@.len() - r.0@.len(),
        r.0@.to_multiset().add(r.1@.to_multiset()) == candidates@.to_multiset(),
        names(r.0@).to_multiset().add(names(r.1@).to_multiset()) == names(candidates@).to_multiset(),
{
    let ghost orig = candidates@;
    let mut rest = candidates;
    let mut taken: Vec<String> = Vec::new();
    let mut k: usize = 0;
    while k < count && rest.len() > 0
        invariant
            k <= count,
            taken@.len() + rest@.len() == orig.len(),
            taken@.len() == if k < orig.len() { k as int } else { orig.len() as int },
            taken@.to_multiset().add(rest@.to_multiset()) == orig.to_multiset(),
            names(taken@).to_multiset().add(names(rest@).to_multiset()) == names(orig).to_multiset(),
        decreases count - k,
    {
        let ghost before_rest = rest@;
        let ghost before_taken = taken@;
        let idx = gen_range_usize(rng, 0, rest.len());
        let x = rest.remove(idx);
        proof {
            vstd::seq_lib::to_multiset_remove(before_rest, idx as int);
            vstd::seq_lib::to_multiset_build(before_taken, x);
            assert(taken@.push(x).to_multiset().add(rest@.to_multiset())
                =~= before_taken.to_multiset().add(before_rest.to_multiset()));
            assert(names(rest@) =~= names(before_rest).remove(idx as int));
            lemma_names_push(before_taken, x);
            vstd::seq_lib::to_multiset_remove(names(before_rest), idx as int);
            vstd::seq_lib::to_multiset_build(names(before_taken), x@);
            assert(names(before_rest)[idx as int] == x@);
            assert(names(taken@.push(x)).to_multiset().add(names(rest@).to_multiset())
                =~= names(before_taken).to_multiset().add(names(before_rest).to_multiset()));
        }
        taken.push(x);
        k = k + 1;
    }
    (taken, rest)
}

/// The group of containers to cut off in one round of network partitions:
/// between one and all but one container, drawn at random (the single
/// container when there is only one).
pub fn partition_group(rng: &mut StdRng, containers: &Vec<String>) -> (g: Vec<String>)
    requires
        containers@.len() > 0,
    ensures
        1 <= g@.len(),
        g@.len() <= containers@.len(),
        containers@.len() >= 2 ==> g@.len() < containers@.len(),
        g@.to_multiset().subset_of(containers@.to_multiset()),
        names(g@).to_multiset().subset_of(names(containers@).to_multiset()),
{
    let n = containers.len();
    let upper = if n > 2 { n } else { 2 };
    let set_size = gen_range_usize(rng, 1, upper);
    let candidates = copy_names(containers);
    let (group, rest) = take_random(rng, candidates, set_size);
    proof {
        broadcast use vstd::multiset::group_multiset_axioms;
        assert(group@.to_multiset().subset_of(group@.to_multiset().add(rest@.to_multiset())));
        assert(names(group@).to_multiset().subset_of(
            names(group@).to_multiset().add(names(rest@).to_multiset()),
        ));
    }
    group
}

/// Whether a round's disconnected containers include the initial leader,
/// the first of the configured containers.
pub fn isolates_leader(containers: &Vec<String>, disconnected: &Vec<String>) -> (b: bool)
    ensures
        b == (containers@.len() > 0 && names(disconnected@).contains(containers@[0]@)),
{
    if containers.len() == 0 {
        false
    } else {
        contains_name(disconnected, &containers[0])
    }
}

/// Drops from `list` every name that occurs in `gone`.
pub fn remove_names(list: &mut Vec<String>, gone: &Vec<String>)
    ensures
        names(final(list)@) == without_all(names(old(list)@), names(gone@)),
{
    let ghost orig = names(list@);
    let ghost g = names(gone@);
    let mut kept: Vec<String> = Vec::new();
    proof {
        reveal(Seq::filter);
    }
    let n = list.len();
    let mut i: usize = 0;
    while i < n
        invariant
            n == list@.len(),
            orig == names(list@),
            g == names(gone@),
            i <= n,
            names(kept@) == without_all(orig.take(i as int), g),
        decreases n - i,
    {
        proof {
            assert(orig.take(i + 1).drop_last() =~= orig.take(i as int));
            assert(orig.take(i + 1).last() == list@[i as int]@);
        }
        let ghost kept_before = kept@;
        if !contains_name(gone, &list[i]) {
            let c = list[i].clone();
            kept.push(c);
            proof {
                lemma_names_push(kept_before, c);
            }
        }
        proof {
            reveal(Seq::filter);
            assert(names(kept@) =~= without_all(orig.take(i + 1), g));
        }
        i = i + 1;
    }
    assert(orig.take(n as int) =~= orig);
    *list = kept;
}

/// The containers that are not stopped, in configured order.
pub fn alive_containers(containers: &Vec<String>, stopped: &Vec<String>) -> (r: Vec<String>)
    ensures
        names(r@) == without_all(names(containers@), names(stopped@)),
{
    let mut r = copy_names(containers);
    remove_names(&mut r, stopped);
    r
}

/// One of the given containers, drawn at random.
pub fn pick_one(rng: &mut StdRng, alive: &Vec<String>) -> (c: String)
    requires
        alive@.len() > 0,
    ensures
        alive@.contains(c),
{
    let i = gen_range_usize(rng, 0, alive.len());
    alive[i].clone()
}

/// How long a crashed container stays down, in seconds: drawn at random
/// from 5 to 15.
pub fn crash_downtime_secs(rng: &mut StdRng) -> (s: u64)
    ensures
        5 <= s <= 15,
{
    let s = gen_range_usize(rng, 5, 16);
    s as u64
}

/// The smallest majority of `n` containers.
pub fn quorum_majority(n: usize) -> (m: usize)
    ensures
        m == n / 2 + 1,
        m > n - m,
        n > 0 ==> m <= n,
{
    n / 2 + 1
}

/// The containers to kill in one round of quorum loss: a majority of the
/// configured containers drawn at random from those alive, or none when fewer
/// than a majority are alive.
pub fn quorum_kill_set(rng: &mut StdRng, alive: Vec<String>, majority: usize) -> (r: Option<Vec<String>>)
    ensures
        match r {
            Some(k) => alive@.len() >= majority && k@.len() == majority
                && k@.to_multiset().subset_of(alive@.to_multiset())
                && names(k@).to_multiset().subset_of(names(alive@).to_multiset()),
            None => alive@.len() < majority,
        },
{
    if alive.len() < majority {
        None
    } else {
        let ghost a = alive@;
        let (kill, rest) = take_random(rng, alive, majority);
        proof {
            broadcast use vstd::multiset::group_multiset_axioms;
            assert(kill@.to_multiset().subset_of(kill@.to_multiset().add(rest@.to_multiset())));
            assert(names(kill@).to_multiset().subset_of(
                names(kill@).to_multiset().add(names(rest@).to_multiset()),
            ));
        }
        Some(kill)
    }
}

/// With a majority of `n` containers down, the ones left are too few to form
/// a quorum.
pub proof fn lemma_majority_down_leaves_no_quorum(n: nat, down: nat)
    requires
        down >= n / 2 + 1,
        down <= n,
    ensures
        n - down < n / 2 + 1,
{
}

/// Once the reconnected containers are dropped from the list of partitioned
/// ones, none of them is left there, and every container left was there
/// before.
pub proof fn lemma_healed_not_pending(partitioned: Seq<Seq<char>>, reconnected: Seq<Seq<char>>, n: Seq<char>)
    ensures
        without_all(partitioned, reconnected).contains(n) <==> (partitioned.contains(n) && !reconnected.contains(n)),
    decreases partitioned.len(),
{
    reveal(Seq::filter);
    if partitioned.len() > 0 {
        let t = partitioned.drop_last();
        lemma_healed_not_pending(t, reconnected, n);
        let w = without_all(partitioned, reconnected);
        let wt = without_all(t, reconnected);
        if partitioned.contains(n) && !reconnected.contains(n) {
            let i = choose|i: int| 0 <= i < partitioned.len() && partitioned[i] == n;
            if i < t.len() {
                assert(t[i] == n);
                let j = choose|j: int| 0 <= j < wt.len() && wt[j] == n;
                assert(w[j] == n);
            } else {
                assert(w.last() == n);
            }
        }
        if w.contains(n) {
            let j = choose|j: int| 0 <= j < w.len() && w[j] == n;
            if j < wt.len() {
                assert(wt[j] == n);
                let i = choose|i: int| 0 <= i < t.len() && t[i] == n;
                assert(partitioned[i] == n);
            } else {
                assert(partitioned.last() == n);
            }
        }
    }
}

/// The names left after dropping some are, counted with their repeats,
/// among the names before.
pub proof fn lemma_without_all_sub_multiset(s: Seq<Seq<char>>, gone: Seq<Seq<char>>)
    ensures
        without_all(s, gone).to_multiset().subset_of(s.to_multiset()),
    decreases s.len(),
{
    broadcast use vstd::multiset::group_multiset_axioms;

    reveal(Seq::filter);
    if s.len() == 0 {
        assert(without_all(s, gone) =~= Seq::<Seq<char>>::empty());
    } else {
        let t = s.drop_last();
        lemma_without_all_sub_multiset(t, gone);
        assert(s =~= t.push(s.last()));
        vstd::seq_lib::to_multiset_build(t, s.last());
        if !gone.contains(s.last()) {
            vstd::seq_lib::to_multiset_build(without_all(t, gone), s.last());
        }
    }
}

/// Names drawn, counted with their repeats, from a list in which no name
/// occurs twice are themselves all different.
pub proof fn lemma_sub_multiset_no_duplicates(g: Seq<Seq<char>>, all: Seq<Seq<char>>)
    requires
        all.no_duplicates(),
        g.to_multiset().subset_of(all.to_multiset()),
    ensures
        g.no_duplicates(),
{
    broadcast use vstd::multiset::group_multiset_axioms;

    all.lemma_multiset_has_no_duplicates();
    assert forall|x: Seq<char>| g.to_multiset().contains(x) implies g.to_multiset().count(x) == 1 by {
        assert(all.to_multiset().count(x) >= g.to_multiset().count(x));
        assert(all.to_multiset().contains(x));
    }
    g.lemma_multiset_has_no_duplicates_conv();
}

} // verus!
