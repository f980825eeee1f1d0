use vstd::prelude::*;
use rand::rngs::StdRng;
use crate::nemesis::{
    alive_containers, copy_names, crash_downtime_secs, lemma_healed_not_pending, lemma_sub_multiset_no_duplicates,
    lemma_without_all_sub_multiset, names, partition_group, pick_one, quorum_majority, quorum_kill_set, remove_names,
    without_all,
};

verus! {

broadcast use vstd::seq_lib::group_to_multiset_ensures;

/// The kind of fault a schedule of rounds injects.
#[derive(Debug, Clone, Copy, PartialEq, Eq, Structural)]
pub enum FaultKind {
    /// Cut a random group of containers off the network, then reconnect it.
    Partition,
    /// Kill one random live container, then restart it.
    Crash,
    /// Kill a random majority of the live containers, then restart them.
    QuorumLoss,
}

/// Where a schedule of fault rounds stands.
#[derive(Debug, Clone, Copy, PartialEq, Eq, Structural)]
pub enum RoundPhase {
    /// Before the first round: the cluster gets time to settle.
    Stabilize,
    /// A round is about to be chosen, or the rounds are over.
    RoundStart,
    /// The round's containers are being broken (disconnected or killed).
    Breaking,
    /// The broken containers stay broken for a while.
    Down,
    /// The round's containers are being restored (reconnected or restarted).
    Healing,
    /// The cluster gets time to recover before the next round.
    Recovering,
    /// All rounds are done.
    Finished,
}

/// What the runner reports back after carrying out an action.
#[derive(Debug)]
pub enum FaultEvent {
    /// A sleep or nothing was done.
    Proceed,
    /// The containers for which the break or restore succeeded.
    Done(Vec<String>),
}

/// What the runner is to do next.
#[derive(Debug)]
pub enum FaultAction {
    /// Wait this many seconds.
    Sleep(u64),
    /// Break these containers (disconnect or kill them).
    Break(Vec<String>),
    /// Restore these containers (reconnect or restart them).
    Heal(Vec<String>),
    /// Nothing to do; ask for the next action.
    Skip,
    /// The rounds are over; these containers were left broken.
    Finish(Vec<String>),
}

/// What happened to containers in one round: which were broken and which
/// were then restored.
pub struct RoundRecord {
    pub broken: Seq<Seq<char>>,
    pub restored: Seq<Seq<char>>,
}

/// The containers left broken after a sequence of rounds: each round adds
/// the containers it broke, then drops every container it restored.
pub open spec fn outstanding(log: Seq<RoundRecord>) -> Seq<Seq<char>>
    decreases log.len(),
{
    if log.len() == 0 {
        Seq::empty()
    } else {
        without_all(outstanding(log.drop_last()) + log.last().broken, log.last().restored)
    }
}

/// Dropping no names changes nothing.
pub proof fn lemma_without_none(s: Seq<Seq<char>>)
    ensures
        without_all(s, Seq::empty()) == s,
    decreases s.len(),
{
    reveal(Seq::filter);
    if s.len() > 0 {
        lemma_without_none(s.drop_last());
        assert(without_all(s, Seq::empty()) =~= s);
    }
}

/// A container is left broken exactly when some round broke it and neither
/// that round nor any later one restored it.
pub proof fn lemma_outstanding_exact(log: Seq<RoundRecord>, n: Seq<char>)
    ensures
        outstanding(log).contains(n) <==> exists|i: int|
            0 <= i < log.len() && #[trigger] log[i].broken.contains(n)
                && forall|j: int| i <= j < log.len() ==> !(#[trigger] log[j].restored.contains(n)),
    decreases log.len(),
{
    if log.len() > 0 {
        let t = log.drop_last();
        let last = log.last();
        let k = log.len() - 1;
        lemma_outstanding_exact(t, n);
        crate::nemesis::lemma_healed_not_pending(outstanding(t) + last.broken, last.restored, n);
        let both = outstanding(t) + last.broken;
        assert(both.contains(n) <==> (outstanding(t).contains(n) || last.broken.contains(n))) by {
            if both.contains(n) {
                let i = choose|i: int| 0 <= i < both.len() && both[i] == n;
                if i >= outstanding(t).len() {
                    assert(last.broken[i - outstanding(t).len()] == n);
                }
            }
            if outstanding(t).contains(n) {
                let i = choose|i: int| 0 <= i < outstanding(t).len() && outstanding(t)[i] == n;
                assert(both[i] == n);
            }
            if last.broken.contains(n) {
                let i = choose|i: int| 0 <= i < last.broken.len() && last.broken[i] == n;
                assert(both[outstanding(t).len() + i] == n);
            }
        }
        if outstanding(log).contains(n) {
            if last.broken.contains(n) {
                assert(log[k].broken.contains(n));
                assert forall|j: int| k <= j < log.len() implies !(#[trigger] log[j].restored.contains(n)) by {}
            } else {
                let i = choose|i: int|
                    0 <= i < t.len() && #[trigger] t[i].broken.contains(n)
                        && forall|j: int| i <= j < t.len() ==> !(#[trigger] t[j].restored.contains(n));
                assert(log[i] == t[i]);
                assert forall|j: int| i <= j < log.len() implies !(#[trigger] log[j].restored.contains(n)) by {
                    if j < t.len() {
                        assert(log[j] == t[j]);
                    }
                }
            }
        }
        if exists|i: int|
            0 <= i < log.len() && #[trigger] log[i].broken.contains(n)
                && forall|j: int| i <= j < log.len() ==> !(#[trigger] log[j].restored.contains(n)) {
            let i = choose|i: int|
                0 <= i < log.len() && #[trigger] log[i].broken.contains(n)
                    && forall|j: int| i <= j < log.len() ==> !(#[trigger] log[j].restored.contains(n));
            assert(!log[k].restored.contains(n));
            if i < k {
                assert(t[i] == log[i]);
                assert forall|j: int| i <= j < t.len() implies !(#[trigger] t[j].restored.contains(n)) by {
                    assert(t[j] == log[j]);
                }
            }
        }
    }
}

/// The names of two lists, one after the other.
proof fn lemma_names_add(a: Seq<String>, b: Seq<String>)
    ensures
        names(a + b) == names(a) + names(b),
{
    assert(names(a + b) =~= names(a) + names(b));
}

/// A schedule of fault rounds of one kind over a list of containers, with
/// the containers that are currently broken. There are as many rounds as
/// containers, after a settling sleep; each round breaks some containers,
/// waits, restores them, and waits again.
pub struct FaultRounds {
    kind: FaultKind,
    containers: Vec<String>,
    down: Vec<String>,
    round: usize,
    phase: RoundPhase,
    group: Vec<String>,
    broken: Vec<String>,
    majority: usize,
    records: Ghost<Seq<RoundRecord>>,
}

/// The live containers: those configured and not broken, in order.
pub open spec fn alive_names(containers: Seq<String>, down: Seq<String>) -> Seq<Seq<char>> {
    without_all(names(containers), names(down))
}

/// Names drawn, counted with their repeats, from the live containers, when
/// no configured name occurs twice, are all different and all live: a
/// quorum-loss round kills as many distinct live containers as its group
/// holds.
pub proof fn lemma_kill_group_distinct(containers: Seq<String>, down: Seq<String>, g: Seq<String>)
    requires
        names(containers).no_duplicates(),
        names(g).to_multiset().subset_of(alive_names(containers, down).to_multiset()),
    ensures
        names(g).no_duplicates(),
        forall|i: int| 0 <= i < g.len() ==> alive_names(containers, down).contains(#[trigger] names(g)[i]),
{
    broadcast use vstd::multiset::group_multiset_axioms;

    let alive = alive_names(containers, down);
    lemma_without_all_sub_multiset(names(containers), names(down));
    assert(names(g).to_multiset().subset_of(names(containers).to_multiset()));
    lemma_sub_multiset_no_duplicates(names(g), names(containers));
    assert forall|i: int| 0 <= i < g.len() implies alive.contains(#[trigger] names(g)[i]) by {
        assert(names(g).to_multiset().count(names(g)[i]) > 0);
        assert(alive.to_multiset().count(names(g)[i]) > 0);
    }
}

/// Dropping names from a list in which none occurs twice leaves a list in
/// which none occurs twice.
proof fn lemma_without_all_no_duplicates(s: Seq<Seq<char>>, gone: Seq<Seq<char>>)
    requires
        s.no_duplicates(),
    ensures
        without_all(s, gone).no_duplicates(),
{
    lemma_without_all_sub_multiset(s, gone);
    lemma_sub_multiset_no_duplicates(without_all(s, gone), s);
}

impl FaultRounds {
    /// The kind of fault.
    pub closed spec fn kind(&self) -> FaultKind {
        self.kind
    }

    /// The configured containers.
    pub closed spec fn containers(&self) -> Seq<String> {
        self.containers@
    }

    /// The containers that are broken now, in the order they were broken.
    pub closed spec fn down(&self) -> Seq<String> {
        self.down@
    }

    /// The number of rounds done.
    pub closed spec fn round(&self) -> nat {
        self.round as nat
    }

    /// Where the schedule stands.
    pub closed spec fn phase(&self) -> RoundPhase {
        self.phase
    }

    /// The containers chosen to break in the current round.
    pub closed spec fn group(&self) -> Seq<String> {
        self.group@
    }

    /// The containers actually broken in the current round.
    pub closed spec fn broken(&self) -> Seq<String> {
        self.broken@
    }

    /// The size of a majority of the configured containers.
    pub closed spec fn majority(&self) -> nat {
        self.majority as nat
    }

    /// What each round so far broke and restored.
    pub closed spec fn records(&self) -> Seq<RoundRecord> {
        self.records@
    }

    /// The schedule's invariant: the broken containers are exactly those that
    /// the rounds so far broke and did not restore, and no more rounds run
    /// than there are containers.
    pub closed spec fn wf(&self) -> bool {
        &&& self.round <= self.containers@.len()
        &&& self.majority == self.containers@.len() / 2 + 1
        &&& names(self.down@) == outstanding(self.records@)
        &&& (self.phase == RoundPhase::Down || self.phase == RoundPhase::Healing) ==> {
            &&& self.records@.len() > 0
            &&& self.records@.last().restored == Seq::<Seq<char>>::empty()
        }
        &&& (self.phase == RoundPhase::Breaking || self.phase == RoundPhase::Down || self.phase
            == RoundPhase::Healing || self.phase == RoundPhase::Recovering) ==> self.round < self.containers@.len()
        &&& self.phase == RoundPhase::Finished ==> (self.containers@.len() == 0 || self.round
            == self.containers@.len())
        &&& self.containers@.len() <= usize::MAX
        &&& (self.kind != FaultKind::Partition && names(self.containers@).no_duplicates()) ==> {
            &&& names(self.down@).no_duplicates()
            &&& self.phase == RoundPhase::Breaking ==> {
                &&& names(self.group@).no_duplicates()
                &&& forall|i: int| 0 <= i < self.group@.len() ==> alive_names(self.containers@, self.down@).contains(
                    #[trigger] names(self.group@)[i],
                )
            }
        }
    }

    /// Where no configured name occurs twice, a crash or quorum-loss
    /// schedule never holds a container as broken twice.
    pub proof fn lemma_down_distinct(&self)
        requires
            self.wf(),
            self.kind() != FaultKind::Partition,
            names(self.containers()).no_duplicates(),
        ensures
            names(self.down()).no_duplicates(),
    {
    }

    /// The broken containers are exactly those that some round broke and
    /// that neither that round nor any later one restored: so what the
    /// schedule finishes with is what the final clean-up must restore.
    pub proof fn lemma_down_exact(&self, n: Seq<char>)
        requires
            self.wf(),
        ensures
            names(self.down()).contains(n) <==> exists|i: int|
                0 <= i < self.records().len() && #[trigger] self.records()[i].broken.contains(n)
                    && forall|j: int| i <= j < self.records().len() ==> !(#[trigger] self.records()[j].restored.contains(n)),
    {
        let log = self.records();
        assert(names(self.down()) == outstanding(log));
        lemma_outstanding_exact(log, n);
    }

    /// Adding to the broken containers some of a group of distinct live
    /// containers keeps every broken container listed once.
    proof fn lemma_break_keeps_distinct(&self, down: Seq<String>, s: Seq<String>)
        requires
            names(down).no_duplicates(),
            names(self.group@).no_duplicates(),
            forall|i: int| 0 <= i < self.group@.len() ==> alive_names(self.containers@, down).contains(
                #[trigger] names(self.group@)[i],
            ),
            names(s).to_multiset().subset_of(names(self.group@).to_multiset()),
        ensures
            (names(down) + names(s)).no_duplicates(),
    {
        broadcast use vstd::multiset::group_multiset_axioms;

        let g = names(self.group@);
        lemma_sub_multiset_no_duplicates(names(s), g);
        assert forall|i: int, j: int| 0 <= i < names(down).len() && 0 <= j < names(s).len() implies names(down)[i]
            != names(s)[j] by {
            let n = names(s)[j];
            assert(names(s).to_multiset().count(n) > 0);
            assert(g.to_multiset().count(n) > 0);
            assert(g.contains(n));
            let k = choose|k: int| 0 <= k < g.len() && g[k] == n;
            assert(alive_names(self.containers@, down).contains(g[k]));
            lemma_healed_not_pending(names(self.containers@), names(down), n);
            assert(names(down)[i] == names(down)[i]);
            if names(down)[i] == n {
                assert(names(down).contains(n));
            }
        }
        vstd::seq_lib::lemma_no_dup_in_concat(names(down), names(s));
    }

    /// A schedule of `kind` faults over `containers` that has not started.
    pub fn new(kind: FaultKind, containers: Vec<String>) -> (s: Self)
        ensures
            s.wf(),
            s.kind() == kind,
            s.containers() == containers@,
            s.down() == Seq::<String>::empty(),
            s.round() == 0,
            s.phase() == RoundPhase::Stabilize,
            s.records() == Seq::<RoundRecord>::empty(),
    {
        let majority = quorum_majority(containers.len());
        assert(names(Seq::<String>::empty()) =~= Seq::<Seq<char>>::empty());
        assert(containers@.len() <= usize::MAX);
        FaultRounds {
            kind,
            containers,
            down: Vec::new(),
            round: 0,
            phase: RoundPhase::Stabilize,
            group: Vec::new(),
            broken: Vec::new(),
            majority,
            records: Ghost(Seq::empty()),
        }
    }

    /// The number of rounds done.
    pub fn round_index(&self) -> (r: usize)
        ensures
            r == self.round(),
    {
        self.round
    }

    /// The configured containers.
    pub fn container_list(&self) -> (c: &Vec<String>)
        ensures
            c@ == self.containers(),
    {
        &self.containers
    }

    /// Takes the schedule one step on: given what came of the previous
    /// action, updates the broken containers and says what to do next.
    pub fn step(&mut self, rng: &mut StdRng, ev: FaultEvent) -> (a: FaultAction)
        requires
            old(self).wf(),
            (old(self).phase() == RoundPhase::Breaking || old(self).phase() == RoundPhase::Healing) ==> ev is Done,
            old(self).phase() == RoundPhase::Breaking ==> (ev matches FaultEvent::Done(s) ==> names(
                s@,
            ).to_multiset().subset_of(names(old(self).group()).to_multiset())),
        ensures
            final(self).wf(),
            final(self).kind() == old(self).kind(),
            final(self).containers() == old(self).containers(),
            final(self).majority() == old(self).majority(),
            a matches FaultAction::Finish(l) ==> {
                &&& final(self).phase() == RoundPhase::Finished
                &&& l@ == final(self).down()
                &&& names(l@) == outstanding(final(self).records())
                &&& (final(self).containers().len() > 0 ==> final(self).round() == final(self).containers().len())
            },
            old(self).phase() == RoundPhase::Stabilize ==> {
                &&& final(self).down() == old(self).down()
                &&& final(self).round() == old(self).round()
                &&& if old(self).containers().len() == 0 {
                    a is Finish
                } else {
                    a matches FaultAction::Sleep(n) && n == 2 && final(self).phase() == RoundPhase::RoundStart
                }
            },
            old(self).phase() == RoundPhase::RoundStart && old(self).round() >= old(self).containers().len() ==> {
                &&& a is Finish
                &&& final(self).down() == old(self).down()
            },
            old(self).phase() == RoundPhase::RoundStart && old(self).round() < old(self).containers().len() ==> {
                &&& final(self).down() == old(self).down()
                &&& final(self).records() == old(self).records()
                &&& match old(self).kind() {
                    FaultKind::Partition => a matches FaultAction::Break(g) && {
                        &&& g@ == final(self).group()
                        &&& 1 <= g@.len() <= old(self).containers().len()
                        &&& old(self).containers().len() >= 2 ==> g@.len() < old(self).containers().len()
                        &&& g@.to_multiset().subset_of(old(self).containers().to_multiset())
                        &&& names(g@).to_multiset().subset_of(names(old(self).containers()).to_multiset())
                        &&& final(self).phase() == RoundPhase::Breaking
                        &&& final(self).round() == old(self).round()
                    },
                    FaultKind::Crash => if alive_names(old(self).containers(), old(self).down()).len() == 0 {
                        &&& a is Skip
                        &&& final(self).phase() == RoundPhase::RoundStart
                        &&& final(self).round() == old(self).round() + 1
                    } else {
                        a matches FaultAction::Break(g) && {
                            &&& g@ == final(self).group()
                            &&& g@.len() == 1
                            &&& alive_names(old(self).containers(), old(self).down()).contains(g@[0]@)
                            &&& final(self).phase() == RoundPhase::Breaking
                            &&& final(self).round() == old(self).round()
                        }
                    },
                    FaultKind::QuorumLoss => if alive_names(old(self).containers(), old(self).down()).len()
                        < old(self).majority() {
                        &&& a is Skip
                        &&& final(self).phase() == RoundPhase::RoundStart
                        &&& final(self).round() == old(self).round() + 1
                    } else {
                        a matches FaultAction::Break(g) && {
                            &&& g@ == final(self).group()
                            &&& g@.len() == old(self).majority()
                            &&& forall|i: int| 0 <= i < g@.len() ==> alive_names(
                                old(self).containers(),
                                old(self).down(),
                            ).contains(#[trigger] g@[i]@)
                            &&& names(g@).to_multiset().subset_of(
                                alive_names(old(self).containers(), old(self).down()).to_multiset(),
                            )
                            &&& final(self).phase() == RoundPhase::Breaking
                            &&& final(self).round() == old(self).round()
                        }
                    },
                }
            },
            old(self).phase() == RoundPhase::Breaking ==> (ev matches FaultEvent::Done(s) && {
                &&& final(self).down() == old(self).down() + s@
                &&& final(self).broken() == s@
                &&& final(self).group() == old(self).group()
                &&& final(self).records() == old(self).records().push(
                    RoundRecord { broken: names(s@), restored: Seq::empty() },
                )
                &&& if old(self).kind() == FaultKind::Crash && s@.len() == 0 {
                    &&& a is Skip
                    &&& final(self).phase() == RoundPhase::RoundStart
                    &&& final(self).round() == old(self).round() + 1
                } else {
                    &&& a matches FaultAction::Sleep(n) && (if old(self).kind() == FaultKind::Partition {
                        n == 10
                    } else {
                        5 <= n <= 15
                    })
                    &&& final(self).phase() == RoundPhase::Down
                    &&& final(self).round() == old(self).round()
                }
            }),
            old(self).phase() == RoundPhase::Down ==> {
                &&& a matches FaultAction::Heal(h) && h@ == (if old(self).kind() == FaultKind::QuorumLoss {
                    old(self).broken()
                } else {
                    old(self).group()
                })
                &&& final(self).phase() == RoundPhase::Healing
                &&& final(self).down() == old(self).down()
                &&& final(self).records() == old(self).records()
                &&& final(self).round() == old(self).round()
            },
            old(self).phase() == RoundPhase::Healing ==> (ev matches FaultEvent::Done(s) && {
                &&& names(final(self).down()) == without_all(names(old(self).down()), names(s@))
                &&& final(self).records() == old(self).records().drop_last().push(
                    RoundRecord { broken: old(self).records().last().broken, restored: names(s@) },
                )
                &&& a matches FaultAction::Sleep(n) && n == 5
                &&& final(self).phase() == RoundPhase::Recovering
                &&& final(self).round() == old(self).round()
            }),
            old(self).phase() == RoundPhase::Recovering ==> {
                &&& a is Skip
                &&& final(self).phase() == RoundPhase::RoundStart
                &&& final(self).round() == old(self).round() + 1
                &&& final(self).down() == old(self).down()
                &&& final(self).records() == old(self).records()
            },
            old(self).phase() == RoundPhase::Finished ==> {
                &&& a is Finish
                &&& final(self).down() == old(self).down()
            },
    {
        match self.phase {
            RoundPhase::Stabilize => {
                if self.containers.len() == 0 {
                    self.phase = RoundPhase::Finished;
                    FaultAction::Finish(copy_names(&self.down))
                } else {
                    self.phase = RoundPhase::RoundStart;
                    FaultAction::Sleep(2)
                }
            },
            RoundPhase::RoundStart => {
                if self.round >= self.containers.len() {
                    self.phase = RoundPhase::Finished;
                    FaultAction::Finish(copy_names(&self.down))
                } else {
                    match self.kind {
                        FaultKind::Partition => {
                            let g = partition_group(rng, &self.containers);
                            self.group = copy_names(&g);
                            self.phase = RoundPhase::Breaking;
                            FaultAction::Break(g)
                        },
                        FaultKind::Crash => {
                            let alive = alive_containers(&self.containers, &self.down);
                            if alive.len() == 0 {
                                self.round = self.round + 1;
                                FaultAction::Skip
                            } else {
                                let t = pick_one(rng, &alive);
                                proof {
                                    let i = choose|i: int| 0 <= i < alive@.len() && alive@[i] == t;
                                    assert(names(alive@)[i] == t@);
                                }
                                let mut g: Vec<String> = Vec::new();
                                g.push(t);
                                self.group = copy_names(&g);
                                proof {
                                    assert(names(self.group@)[0] == t@);
                                    assert(names(self.group@).len() == 1);
                                }
                                self.phase = RoundPhase::Breaking;
                                FaultAction::Break(g)
                            }
                        },
                        FaultKind::QuorumLoss => {
                            let alive = alive_containers(&self.containers, &self.down);
                            let ghost alive_v = alive@;
                            match quorum_kill_set(rng, alive, self.majority) {
                                None => {
                                    self.round = self.round + 1;
                                    FaultAction::Skip
                                },
                                Some(k) => {
                                    proof {
                                        assert forall|i: int| 0 <= i < k@.len() implies alive_names(
                                            self.containers@,
                                            self.down@,
                                        ).contains(#[trigger] k@[i]@) by {
                                            assert(k@.contains(k@[i]));
                                            assert(k@.to_multiset().count(k@[i]) > 0);
                                            assert(alive_v.to_multiset().count(k@[i]) > 0);
                                            assert(alive_v.contains(k@[i]));
                                            let j = choose|j: int| 0 <= j < alive_v.len() && alive_v[j] == k@[i];
                                            assert(names(alive_v)[j] == k@[i]@);
                                        }
                                    }
                                    self.group = copy_names(&k);
                                    proof {
                                        if names(self.containers@).no_duplicates() {
                                            lemma_kill_group_distinct(self.containers@, self.down@, k@);
                                        }
                                    }
                                    self.phase = RoundPhase::Breaking;
                                    FaultAction::Break(k)
                                },
                            }
                        },
                    }
                }
            },
            RoundPhase::Breaking => {
                let succeeded = match ev {
                    FaultEvent::Done(s) => s,
                    FaultEvent::Proceed => Vec::new(),
                };
                let ghost old_down = self.down@;
                let mut add = copy_names(&succeeded);
                self.down.append(&mut add);
                proof {
                    lemma_names_add(old_down, succeeded@);
                    lemma_without_none(outstanding(self.records@) + names(succeeded@));
                    if self.kind != FaultKind::Partition && names(self.containers@).no_duplicates() {
                        self.lemma_break_keeps_distinct(old_down, succeeded@);
                    }
                }
                self.records = Ghost(
                    self.records@.push(RoundRecord { broken: names(succeeded@), restored: Seq::empty() }),
                );
                proof {
                    assert(self.records@.drop_last() =~= old(self).records@);
                }
                self.broken = succeeded;
                if self.kind == FaultKind::Crash && self.broken.len() == 0 {
                    self.round = self.round + 1;
                    self.phase = RoundPhase::RoundStart;
                    FaultAction::Skip
                } else {
                    let secs = if self.kind == FaultKind::Partition {
                        10
                    } else {
                        crash_downtime_secs(rng)
                    };
                    self.phase = RoundPhase::Down;
                    FaultAction::Sleep(secs)
                }
            },
            RoundPhase::Down => {
                self.phase = RoundPhase::Healing;
                if self.kind == FaultKind::QuorumLoss {
                    FaultAction::Heal(copy_names(&self.broken))
                } else {
                    FaultAction::Heal(copy_names(&self.group))
                }
            },
            RoundPhase::Healing => {
                let restored = match ev {
                    FaultEvent::Done(s) => s,
                    FaultEvent::Proceed => Vec::new(),
                };
                let ghost recs = self.records@;
                proof {
                    let t = recs.drop_last();
                    assert(t.push(recs.last()) =~= recs);
                    lemma_without_none(outstanding(t) + recs.last().broken);
                }
                remove_names(&mut self.down, &restored);
                proof {
                    if self.kind != FaultKind::Partition && names(self.containers@).no_duplicates() {
                        lemma_without_all_no_duplicates(names(old(self).down@), names(restored@));
                    }
                }
                self.records = Ghost(
                    recs.drop_last().push(RoundRecord { broken: recs.last().broken, restored: names(restored@) }),
                );
                proof {
                    assert(self.records@.drop_last() =~= recs.drop_last());
                }
                self.phase = RoundPhase::Recovering;
                FaultAction::Sleep(5)
            },
            RoundPhase::Recovering => {
                self.round = self.round + 1;
                self.phase = RoundPhase::RoundStart;
                FaultAction::Skip
            },
            RoundPhase::Finished => FaultAction::Finish(copy_names(&self.down)),
        }
    }
}

} // verus!
