//! The history walker: a verified state machine that enumerates every
//! commit reachable from any branch, has each one materialized and
//! scanned, and always has the original working-tree state restored
//! before it finishes.
//!
//! The walker itself performs no repository or filesystem work. It
//! emits one [`WalkAction`] at a time; a driver performs the action
//! against the real repository and answers with the matching
//! [`WalkEvent`]. Every decision — the precondition gate on a dirty
//! tree, the iteration across commits, the unconditional restoration,
//! and the aggregation of findings — is made here, under contract.

use vstd::prelude::*;
use crate::scanner::Finding;

verus! {

/// An opaque commit identifier, carried as 256 bits so that any
/// content-derived hash a backend uses fits.
#[derive(Clone, Copy, Debug, PartialEq, Eq, Structural)]
pub struct CommitId {
    pub hi: u128,
    pub lo: u128,
}

/// Why a walk ended without a full result.
#[derive(Clone, Copy, Debug, PartialEq, Eq, Structural)]
pub enum HistoryError {
    /// The working tree held uncommitted work; nothing was touched.
    NotClean,
    /// The repository's branches or commits could not be read, or the
    /// starting head does not rest on a resolvable named reference.
    HistoryRead,
    /// A commit's tree could not be materialized; restoration was
    /// still attempted.
    Checkout,
    /// Restoring the captured state itself failed.
    Restore,
}

/// What the walker asks its driver to do next.
#[derive(Debug, PartialEq, Eq)]
pub enum WalkAction {
    /// Ask whether the working tree is free of staged and unstaged
    /// changes.
    CheckClean,
    /// Enumerate every commit reachable from any branch.
    EnumerateCommits,
    /// Read the current head: its commit and its full reference name.
    CaptureHead,
    /// Force-materialize this commit's tree and detach the head to it.
    Checkout(CommitId),
    /// Scan the materialized working tree for findings.
    ScanTree,
    /// Check the named commit's tree back out, without forcing.
    RestoreTree(CommitId),
    /// Point the head back at the named reference.
    RestoreHead(String),
    /// The walk is over; this is its result.
    Finish(Result<Vec<Finding>, HistoryError>),
}

/// The driver's answer to the action the walker last emitted.
#[derive(Debug, PartialEq, Eq)]
pub enum WalkEvent {
    CleanChecked(bool),
    CommitsEnumerated(Option<Vec<CommitId>>),
    HeadCaptured(Option<(CommitId, String)>),
    CheckedOut(bool),
    Scanned(Vec<Finding>),
    TreeRestored(bool),
    HeadRestored(bool),
}

/// Which phase of the run the walker is in.
#[derive(Clone, Copy, Debug, PartialEq, Eq, Structural)]
pub enum Phase {
    Precheck,
    Enumerate,
    Capture,
    Checkout,
    Scan,
    RestoreTree,
    RestoreHead,
    Done,
}

/// An action that changes the repository or the working tree.
pub open spec fn is_mutating(a: WalkAction) -> bool {
    match a {
        WalkAction::Checkout(_) => true,
        WalkAction::RestoreTree(_) => true,
        WalkAction::RestoreHead(_) => true,
        _ => false,
    }
}

/// No emitted action has touched the repository or the working tree.
pub open spec fn mutation_free(tr: Seq<WalkAction>) -> bool {
    forall|i: int| 0 <= i < tr.len() ==> !is_mutating(#[trigger] tr[i])
}

/// The commits checked out so far, in emission order.
pub open spec fn checkout_ids(tr: Seq<WalkAction>) -> Seq<CommitId>
    decreases tr.len(),
{
    if tr.len() == 0 {
        Seq::empty()
    } else {
        checkout_ids(tr.drop_last()) + (match tr.last() {
            WalkAction::Checkout(c) => seq![c],
            _ => Seq::empty(),
        })
    }
}

/// One finding list per scanned commit, flattened in walk order.
pub open spec fn flatten_findings(ss: Seq<Seq<Finding>>) -> Seq<Finding>
    decreases ss.len(),
{
    if ss.len() == 0 {
        Seq::empty()
    } else {
        flatten_findings(ss.drop_last()) + ss.last()
    }
}

proof fn lemma_checkout_ids_push(tr: Seq<WalkAction>, a: WalkAction)
    ensures
        checkout_ids(tr.push(a)) == checkout_ids(tr) + (match a {
            WalkAction::Checkout(c) => seq![c],
            _ => Seq::<CommitId>::empty(),
        }),
{
    assert(tr.push(a).drop_last() =~= tr);
    assert(tr.push(a).last() == a);
}

proof fn lemma_flatten_push(ss: Seq<Seq<Finding>>, s: Seq<Finding>)
    ensures
        flatten_findings(ss.push(s)) == flatten_findings(ss) + s,
{
    assert(ss.push(s).drop_last() =~= ss);
    assert(ss.push(s).last() == s);
}

proof fn lemma_mutation_free_empty_checkouts(tr: Seq<WalkAction>)
    requires
        mutation_free(tr),
    ensures
        checkout_ids(tr) =~= Seq::<CommitId>::empty(),
    decreases tr.len(),
{
    if tr.len() > 0 {
        assert(!is_mutating(tr[tr.len() - 1]));
        assert(mutation_free(tr.drop_last()));
        lemma_mutation_free_empty_checkouts(tr.drop_last());
    }
}

/// Traversal is idempotent in the repository's state: the findings a
/// completed walk reports are exactly the concatenation of the finding
/// lists its scans answered, so two walks whose scans agree report the
/// same findings, whatever else differed between the runs.
pub proof fn lemma_walk_idempotent(
    a: HistoryWalk,
    b: HistoryWalk,
    fa: Seq<Finding>,
    fb: Seq<Finding>,
)
    requires
        a.scans@ == b.scans@,
        fa == flatten_findings(a.scans@),
        fb == flatten_findings(b.scans@),
    ensures
        fa == fb,
{
}

/// The full transition relation of the walker, one case per phase and
/// answer: which action comes next, which phase follows, and how the
/// captured head, the commit list, the scans and the pending error
/// move. `post.trace@` is `pre.trace@` with the emitted action pushed;
/// that clause stands on [`HistoryWalk::step`] itself.
pub open spec fn transition(
    pre: HistoryWalk,
    ev: WalkEvent,
    post: HistoryWalk,
    act: WalkAction,
) -> bool {
    match (pre.phase, ev) {
        (Phase::Precheck, WalkEvent::CleanChecked(clean)) => {
            if clean {
                act == WalkAction::EnumerateCommits && post.phase is Enumerate
            } else {
                &&& act == WalkAction::Finish(Result::Err(HistoryError::NotClean))
                &&& post.phase is Done
                &&& mutation_free(post.trace@)
            }
        },
        (Phase::Enumerate, WalkEvent::CommitsEnumerated(res)) => match res {
            None => {
                &&& act == WalkAction::Finish(Result::Err(HistoryError::HistoryRead))
                &&& post.phase is Done
                &&& mutation_free(post.trace@)
            },
            Some(cs) => {
                if cs@.len() == 0 {
                    &&& act matches WalkAction::Finish(Result::Ok(f)) && f@ =~= Seq::<
                        Finding,
                    >::empty()
                    &&& post.phase is Done
                    &&& mutation_free(post.trace@)
                } else {
                    &&& act == WalkAction::CaptureHead
                    &&& post.phase is Capture
                    &&& post.commits == cs
                }
            },
        },
        (Phase::Capture, WalkEvent::HeadCaptured(res)) => match res {
            None => {
                &&& act == WalkAction::Finish(Result::Err(HistoryError::HistoryRead))
                &&& post.phase is Done
                &&& mutation_free(post.trace@)
            },
            Some(p) => {
                &&& act == WalkAction::Checkout(pre.commits@[0])
                &&& post.phase is Checkout
                &&& post.orig_commit == p.0
                &&& post.orig_branch == p.1
                &&& post.commits == pre.commits
                &&& post.idx == 0
            },
        },
        (Phase::Checkout, WalkEvent::CheckedOut(ok)) => {
            &&& post.orig_commit == pre.orig_commit
            &&& post.orig_branch == pre.orig_branch
            &&& post.commits == pre.commits
            &&& if ok {
                act == WalkAction::ScanTree && post.phase is Scan && post.idx == pre.idx
            } else {
                &&& act == WalkAction::RestoreTree(pre.orig_commit)
                &&& post.phase is RestoreTree
                &&& post.pending == Some(HistoryError::Checkout)
            }
        },
        (Phase::Scan, WalkEvent::Scanned(fs)) => {
            &&& post.orig_commit == pre.orig_commit
            &&& post.orig_branch == pre.orig_branch
            &&& post.commits == pre.commits
            &&& post.scans@ == pre.scans@.push(fs@)
            &&& post.findings@ == pre.findings@ + fs@
            &&& if pre.idx + 1 < pre.commits@.len() {
                &&& act == WalkAction::Checkout(pre.commits@[pre.idx + 1])
                &&& post.phase is Checkout
                &&& post.idx == pre.idx + 1
            } else {
                &&& act == WalkAction::RestoreTree(pre.orig_commit)
                &&& post.phase is RestoreTree
                &&& post.pending is None
            }
        },
        (Phase::RestoreTree, WalkEvent::TreeRestored(ok)) => {
            &&& act == WalkAction::RestoreHead(pre.orig_branch)
            &&& post.phase is RestoreHead
            &&& post.orig_commit == pre.orig_commit
            &&& post.orig_branch == pre.orig_branch
            &&& post.commits == pre.commits
            &&& post.scans@ == pre.scans@
            &&& post.findings@ == pre.findings@
            &&& post.pending == (if pre.pending is Some {
                pre.pending
            } else if !ok {
                Some(HistoryError::Restore)
            } else {
                None::<HistoryError>
            })
        },
        (Phase::RestoreHead, WalkEvent::HeadRestored(ok)) => {
            &&& post.phase is Done
            &&& match pre.pending {
                Some(e) => act == WalkAction::Finish(Result::Err(e)),
                None => if ok {
                    act matches WalkAction::Finish(Result::Ok(f)) && f@ == pre.findings@
                } else {
                    act == WalkAction::Finish(Result::Err(HistoryError::Restore))
                },
            }
        },
        _ => false,
    }
}

/// The whole state of one run of the history walker.
pub struct HistoryWalk {
    /// Where in the run the walker stands.
    pub phase: Phase,
    /// The enumerated commits, once known.
    pub commits: Vec<CommitId>,
    /// The commit currently being visited.
    pub idx: usize,
    /// The head commit captured before any mutation.
    pub orig_commit: CommitId,
    /// The head reference name captured before any mutation.
    pub orig_branch: String,
    /// Findings accumulated so far.
    pub findings: Vec<Finding>,
    /// An error held back until restoration has been attempted.
    pub pending: Option<HistoryError>,
    /// Every action emitted so far, in order.
    pub trace: Ghost<Seq<WalkAction>>,
    /// The finding list each scan answered, in order.
    pub scans: Ghost<Seq<Seq<Finding>>>,
}

impl HistoryWalk {
    /// The walker's internal invariant: each phase's state agrees with
    /// the trace of actions emitted so far.
    pub open spec fn wf(self) -> bool {
        match self.phase {
            Phase::Precheck => {
                &&& self.trace@ =~= seq![WalkAction::CheckClean]
                &&& self.scans@ =~= Seq::<Seq<Finding>>::empty()
                &&& self.findings@ =~= Seq::<Finding>::empty()
                &&& self.pending is None
            },
            Phase::Enumerate => {
                &&& mutation_free(self.trace@)
                &&& self.scans@ =~= Seq::<Seq<Finding>>::empty()
                &&& self.findings@ =~= Seq::<Finding>::empty()
                &&& self.pending is None
            },
            Phase::Capture => {
                &&& mutation_free(self.trace@)
                &&& self.scans@ =~= Seq::<Seq<Finding>>::empty()
                &&& self.findings@ =~= Seq::<Finding>::empty()
                &&& self.pending is None
                &&& self.commits@.len() > 0
            },
            Phase::Checkout => {
                &&& self.idx < self.commits@.len()
                &&& checkout_ids(self.trace@) =~= self.commits@.take(self.idx + 1)
                &&& self.scans@.len() == self.idx
                &&& self.findings@ == flatten_findings(self.scans@)
                &&& self.pending is None
            },
            Phase::Scan => {
                &&& self.idx < self.commits@.len()
                &&& checkout_ids(self.trace@) =~= self.commits@.take(self.idx + 1)
                &&& self.scans@.len() == self.idx
                &&& self.findings@ == flatten_findings(self.scans@)
                &&& self.pending is None
            },
            Phase::RestoreTree => {
                &&& self.trace@.len() >= 1
                &&& self.trace@.last() == WalkAction::RestoreTree(self.orig_commit)
                &&& self.findings@ == flatten_findings(self.scans@)
                &&& (self.pending is None ==> checkout_ids(self.trace@) =~= self.commits@
                    && self.scans@.len() == self.commits@.len())
                &&& (self.pending matches Some(e) ==> e == HistoryError::Checkout)
            },
            Phase::RestoreHead => {
                &&& self.trace@.len() >= 2
                &&& self.trace@.last() == WalkAction::RestoreHead(self.orig_branch)
                &&& self.trace@[self.trace@.len() - 2] == WalkAction::RestoreTree(self.orig_commit)
                &&& self.findings@ == flatten_findings(self.scans@)
                &&& (self.pending is None ==> checkout_ids(self.trace@) =~= self.commits@
                    && self.scans@.len() == self.commits@.len())
                &&& (self.pending matches Some(e) ==> e == HistoryError::Checkout || e
                    == HistoryError::Restore)
            },
            Phase::Done => true,
        }
    }

    /// The event variant that answers the phase's outstanding action.
    pub open spec fn expects(self, ev: WalkEvent) -> bool {
        match (self.phase, ev) {
            (Phase::Precheck, WalkEvent::CleanChecked(_)) => true,
            (Phase::Enumerate, WalkEvent::CommitsEnumerated(_)) => true,
            (Phase::Capture, WalkEvent::HeadCaptured(_)) => true,
            (Phase::Checkout, WalkEvent::CheckedOut(_)) => true,
            (Phase::Scan, WalkEvent::Scanned(_)) => true,
            (Phase::RestoreTree, WalkEvent::TreeRestored(_)) => true,
            (Phase::RestoreHead, WalkEvent::HeadRestored(_)) => true,
            _ => false,
        }
    }

    /// Begin a run. The first thing a walk ever does is ask whether
    /// the working tree is clean; nothing is mutated before the answer.
    pub fn start() -> (r: (HistoryWalk, WalkAction))
        ensures
            r.0.wf(),
            r.0.phase is Precheck,
            r.1 == WalkAction::CheckClean,
            r.0.trace@ =~= seq![r.1],
            mutation_free(r.0.trace@),
    {
        let ghost tr = seq![WalkAction::CheckClean];
        let w = HistoryWalk {
            phase: Phase::Precheck,
            commits: Vec::new(),
            idx: 0,
            orig_commit: CommitId { hi: 0, lo: 0 },
            orig_branch: String::new(),
            findings: Vec::new(),
            pending: None,
            trace: Ghost(tr),
            scans: Ghost(Seq::empty()),
        };
        (w, WalkAction::CheckClean)
    }

    /// Answer the outstanding action and get the next one.
    ///
    /// The contract carries the walker's guarantees:
    /// - a dirty working tree ends the run at once, with nothing
    ///   mutated;
    /// - an unreadable history ends the run with nothing mutated;
    /// - a repository whose enumeration is empty yields an empty
    ///   finding list with nothing mutated;
    /// - once anything was mutated, the last two actions before
    ///   `Finish` restore the captured tree and the captured head,
    ///   whatever else happened;
    /// - a run that finishes with `Ok` checked out every enumerated
    ///   commit, scanned each one, and returns exactly the
    ///   concatenation of the scans' findings.
    pub fn step(self, ev: WalkEvent) -> (r: (HistoryWalk, WalkAction))
        requires
            self.wf(),
            self.expects(ev),
        ensures
            r.0.wf(),
            r.0.trace@ =~= self.trace@.push(r.1),
            (r.1 matches WalkAction::Finish(_)) <==> (r.0.phase is Done),
            transition(self, ev, r.0, r.1),
            (self.phase is Precheck && ev == WalkEvent::CleanChecked(false)) ==> (r.1
                == WalkAction::Finish(Result::Err(HistoryError::NotClean)) && mutation_free(
                r.0.trace@,
            )),
            r.1 == WalkAction::Finish(Result::Err(HistoryError::HistoryRead)) ==> mutation_free(
                r.0.trace@,
            ),
            (r.1 matches WalkAction::Finish(_) && !mutation_free(r.0.trace@)) ==> (r.0.trace@.len()
                >= 3 && r.0.trace@[r.0.trace@.len() - 3] == WalkAction::RestoreTree(
                r.0.orig_commit,
            ) && r.0.trace@[r.0.trace@.len() - 2] == WalkAction::RestoreHead(r.0.orig_branch)),
            r.1 matches WalkAction::Finish(Result::Ok(f)) ==> f@ == flatten_findings(r.0.scans@),
            (r.1 matches WalkAction::Finish(Result::Ok(_)) && !mutation_free(r.0.trace@)) ==> (
            checkout_ids(r.0.trace@) =~= r.0.commits@ && r.0.scans@.len() == r.0.commits@.len()),
    {
        let ghost pre = self;
        let mut w = self;
        match (w.phase, ev) {
            (Phase::Precheck, WalkEvent::CleanChecked(clean)) => {
                if clean {
                    w.phase = Phase::Enumerate;
                    let act = WalkAction::EnumerateCommits;
                    w.trace = Ghost(w.trace@.push(act));
                    (w, act)
                } else {
                    w.phase = Phase::Done;
                    let act = WalkAction::Finish(Err(HistoryError::NotClean));
                    w.trace = Ghost(w.trace@.push(act));
                    (w, act)
                }
            },
            (Phase::Enumerate, WalkEvent::CommitsEnumerated(res)) => match res {
                None => {
                    w.phase = Phase::Done;
                    let act = WalkAction::Finish(Err(HistoryError::HistoryRead));
                    w.trace = Ghost(w.trace@.push(act));
                    (w, act)
                },
                Some(cs) => {
                    if cs.len() == 0 {
                        w.phase = Phase::Done;
                        let act = WalkAction::Finish(Ok(Vec::new()));
                        w.trace = Ghost(w.trace@.push(act));
                        (w, act)
                    } else {
                        w.phase = Phase::Capture;
                        w.commits = cs;
                        let act = WalkAction::CaptureHead;
                        w.trace = Ghost(w.trace@.push(act));
                        (w, act)
                    }
                },
            },
            (Phase::Capture, WalkEvent::HeadCaptured(res)) => match res {
                None => {
                    w.phase = Phase::Done;
                    let act = WalkAction::Finish(Err(HistoryError::HistoryRead));
                    w.trace = Ghost(w.trace@.push(act));
                    (w, act)
                },
                Some(p) => {
                    w.phase = Phase::Checkout;
                    w.orig_commit = p.0;
                    w.orig_branch = p.1;
                    w.idx = 0;
                    let first = w.commits[0];
                    let act = WalkAction::Checkout(first);
                    w.trace = Ghost(w.trace@.push(act));
                    proof {
                        lemma_mutation_free_empty_checkouts(pre.trace@);
                        lemma_checkout_ids_push(pre.trace@, act);
                        assert(checkout_ids(w.trace@) =~= w.commits@.take(1));
                    }
                    (w, act)
                },
            },
            (Phase::Checkout, WalkEvent::CheckedOut(ok)) => {
                if ok {
                    w.phase = Phase::Scan;
                    let act = WalkAction::ScanTree;
                    w.trace = Ghost(w.trace@.push(act));
                    proof {
                        lemma_checkout_ids_push(pre.trace@, act);
                        assert(checkout_ids(w.trace@) =~= w.commits@.take(w.idx + 1));
                    }
                    (w, act)
                } else {
                    w.phase = Phase::RestoreTree;
                    w.pending = Some(HistoryError::Checkout);
                    let act = WalkAction::RestoreTree(w.orig_commit);
                    w.trace = Ghost(w.trace@.push(act));
                    (w, act)
                }
            },
            (Phase::Scan, WalkEvent::Scanned(fs)) => {
                let ghost fsv = fs@;
                let mut tmp = fs;
                w.findings.append(&mut tmp);
                w.scans = Ghost(w.scans@.push(fsv));
                proof {
                    lemma_flatten_push(pre.scans@, fsv);
                }
                if w.idx < w.commits.len() - 1 {
                    w.idx = w.idx + 1;
                    w.phase = Phase::Checkout;
                    let next = w.commits[w.idx];
                    let act = WalkAction::Checkout(next);
                    w.trace = Ghost(w.trace@.push(act));
                    proof {
                        lemma_checkout_ids_push(pre.trace@, act);
                        assert(pre.commits@.take(pre.idx + 1).push(pre.commits@[pre.idx + 1])
                            =~= w.commits@.take(w.idx + 1));
                        assert(checkout_ids(pre.trace@).push(w.commits@[w.idx as int])
                            =~= checkout_ids(pre.trace@) + seq![w.commits@[w.idx as int]]);
                        assert(checkout_ids(w.trace@) =~= w.commits@.take(w.idx + 1));
                    }
                    (w, act)
                } else {
                    w.phase = Phase::RestoreTree;
                    let act = WalkAction::RestoreTree(w.orig_commit);
                    w.trace = Ghost(w.trace@.push(act));
                    proof {
                        lemma_checkout_ids_push(pre.trace@, act);
                        assert(pre.commits@.take(pre.idx + 1) =~= pre.commits@);
                        assert(checkout_ids(w.trace@) =~= w.commits@);
                    }
                    (w, act)
                }
            },
            (Phase::RestoreTree, WalkEvent::TreeRestored(ok)) => {
                w.phase = Phase::RestoreHead;
                if w.pending.is_none() && !ok {
                    w.pending = Some(HistoryError::Restore);
                }
                let name = w.orig_branch.clone();
                let act = WalkAction::RestoreHead(name);
                w.trace = Ghost(w.trace@.push(act));
                proof {
                    lemma_checkout_ids_push(pre.trace@, act);
                }
                (w, act)
            },
            (Phase::RestoreHead, WalkEvent::HeadRestored(ok)) => {
                w.phase = Phase::Done;
                let act = match w.pending {
                    Some(e) => WalkAction::Finish(Err(e)),
                    None => {
                        if ok {
                            let mut out: Vec<Finding> = Vec::new();
                            core::mem::swap(&mut out, &mut w.findings);
                            WalkAction::Finish(Ok(out))
                        } else {
                            WalkAction::Finish(Err(HistoryError::Restore))
                        }
                    },
                };
                w.trace = Ghost(w.trace@.push(act));
                proof {
                    lemma_checkout_ids_push(pre.trace@, act);
                    if !mutation_free(w.trace@) {
                        assert(w.trace@[w.trace@.len() - 3] == WalkAction::RestoreTree(
                            w.orig_commit,
                        ));
                        assert(w.trace@[w.trace@.len() - 2] == WalkAction::RestoreHead(
                            w.orig_branch,
                        ));
                    }
                }
                (w, act)
            },
            _ => vstd::pervasive::unreached(),
        }
    }
}

} // verus!
