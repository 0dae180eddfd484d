//! The extraction session: which file-system step comes next, decided from the
//! archive's entry names, the conflict policy and the host's replies.
//!
//! The host performs each pending action and answers it with one `bool`: for
//! `Probe`, whether the target already exists; for every other action, whether
//! it succeeded.
use vstd::prelude::*;
use crate::entry_path::{denotes_directory, sanitize_entry_name, sanitize_spec, views, EntryPath};

verus! {

/// Why an extraction stopped.
#[derive(Clone, Copy, Debug, PartialEq, Eq, Structural)]
pub enum ExtractError {
    /// The bundle could not be read as an archive.
    Open,
    /// An entry name leaves the destination directory.
    InvalidEntryPath,
    /// A destination, removal, copy or signature step failed.
    Io,
}

/// One request to unpack a bundle.
#[derive(Debug)]
pub struct ExtractionRequest {
    pub source_archive_path: String,
    pub destination_dir: String,
    /// Replace targets that already exist instead of skipping them.
    pub force_replace: bool,
    /// Delete the signature file from the destination afterwards.
    pub delete_signature_after: bool,
    /// Delete the bundle after a successful extraction (done by the caller).
    pub delete_source_after: bool,
}

/// Counts of a finished extraction.
#[derive(Clone, Copy, Debug, PartialEq, Eq, Structural)]
pub struct ExtractionOutcome {
    /// Entries placed on disk.
    pub entries_written: usize,
    /// Entries left alone because the target existed.
    pub entries_skipped: usize,
    /// Entries skipped because their directory could not be created.
    pub entries_unplaced: usize,
}

/// What the session waits for.
#[derive(Clone, Copy, Debug, PartialEq, Eq, Structural)]
pub enum Stage {
    Start,
    Probing,
    Removing,
    Placing,
    Writing,
    Signing,
    Completed,
    Failed(ExtractError),
}

/// The session's position: stage, current entry and counts so far.
#[derive(Clone, Copy, Debug, PartialEq, Eq, Structural)]
pub struct Progress {
    pub stage: Stage,
    pub index: usize,
    pub outcome: ExtractionOutcome,
}

/// The step the host is asked to perform next.
#[derive(Clone, Copy, Debug, PartialEq, Eq, Structural)]
pub enum FsAction {
    /// Create the destination directory and its ancestors.
    EnsureDestination,
    /// Tell whether the target of entry `i` exists.
    Probe(usize),
    /// Delete the existing target of entry `i`.
    RemoveExisting(usize),
    /// Create the parent directories of entry `i`'s target (for a directory
    /// entry, the directory itself).
    CreateParents(usize),
    /// Copy the contents of entry `i` to its target.
    Write(usize),
    /// Delete the signature file from the destination if it is there.
    RemoveSignature,
    /// The extraction succeeded with these counts.
    Completed(ExtractionOutcome),
    /// The extraction stopped with this error.
    Failed(ExtractError),
}

/// Name of the signature file that may be deleted after extraction, directly
/// under the destination directory.
pub fn signature_file_name() -> (r: String)
    ensures
        r@ == "AppxSignature.p7x"@,
{
    String::from_str("AppxSignature.p7x")
}

pub open spec fn zero_outcome() -> ExtractionOutcome {
    ExtractionOutcome { entries_written: 0, entries_skipped: 0, entries_unplaced: 0 }
}

pub open spec fn total(o: ExtractionOutcome) -> nat {
    (o.entries_written + o.entries_skipped + o.entries_unplaced) as nat
}

pub open spec fn at(stage: Stage, index: nat, outcome: ExtractionOutcome) -> Progress {
    Progress { stage, index: index as usize, outcome }
}

/// The position reached on moving to entry `index`: probe it if its name is
/// accepted, fail if not, and after the last entry remove the signature or
/// complete.
pub open spec fn enter_spec(names: Seq<Seq<char>>, sig: bool, index: nat, o: ExtractionOutcome) -> Progress {
    if index < names.len() {
        if sanitize_spec(names[index as int]) is Some {
            at(Stage::Probing, index, o)
        } else {
            at(Stage::Failed(ExtractError::InvalidEntryPath), index, o)
        }
    } else if sig {
        at(Stage::Signing, index, o)
    } else {
        at(Stage::Completed, index, o)
    }
}

pub open spec fn written_one(o: ExtractionOutcome) -> ExtractionOutcome {
    ExtractionOutcome { entries_written: (o.entries_written + 1) as usize, ..o }
}

pub open spec fn skipped_one(o: ExtractionOutcome) -> ExtractionOutcome {
    ExtractionOutcome { entries_skipped: (o.entries_skipped + 1) as usize, ..o }
}

pub open spec fn unplaced_one(o: ExtractionOutcome) -> ExtractionOutcome {
    ExtractionOutcome { entries_unplaced: (o.entries_unplaced + 1) as usize, ..o }
}

/// One transition on the host's reply to the pending action.
pub open spec fn next_spec(names: Seq<Seq<char>>, force: bool, sig: bool, p: Progress, reply: bool) -> Progress {
    let i = p.index as nat;
    let o = p.outcome;
    match p.stage {
        Stage::Start => if reply {
            enter_spec(names, sig, 0, o)
        } else {
            at(Stage::Failed(ExtractError::Io), i, o)
        },
        Stage::Probing => if !reply {
            at(Stage::Placing, i, o)
        } else if denotes_directory(names[i as int]) || !force {
            enter_spec(names, sig, i + 1, skipped_one(o))
        } else {
            at(Stage::Removing, i, o)
        },
        Stage::Removing => if reply {
            at(Stage::Placing, i, o)
        } else {
            at(Stage::Failed(ExtractError::Io), i, o)
        },
        Stage::Placing => if !reply {
            enter_spec(names, sig, i + 1, unplaced_one(o))
        } else if denotes_directory(names[i as int]) {
            enter_spec(names, sig, i + 1, written_one(o))
        } else {
            at(Stage::Writing, i, o)
        },
        Stage::Writing => if reply {
            enter_spec(names, sig, i + 1, written_one(o))
        } else {
            at(Stage::Failed(ExtractError::Io), i, o)
        },
        Stage::Signing => if reply {
            at(Stage::Completed, i, o)
        } else {
            at(Stage::Failed(ExtractError::Io), i, o)
        },
        Stage::Completed => p,
        Stage::Failed(_) => p,
    }
}

/// The action that a position waits on.
pub open spec fn pending_spec(p: Progress) -> FsAction {
    match p.stage {
        Stage::Start => FsAction::EnsureDestination,
        Stage::Probing => FsAction::Probe(p.index),
        Stage::Removing => FsAction::RemoveExisting(p.index),
        Stage::Placing => FsAction::CreateParents(p.index),
        Stage::Writing => FsAction::Write(p.index),
        Stage::Signing => FsAction::RemoveSignature,
        Stage::Completed => FsAction::Completed(p.outcome),
        Stage::Failed(e) => FsAction::Failed(e),
    }
}

pub open spec fn initial_progress() -> Progress {
    at(Stage::Start, 0, zero_outcome())
}

/// Whether the entry a position acts on, if any, has an accepted name.
pub open spec fn acts_on_accepted(names: Seq<Seq<char>>, p: Progress) -> bool {
    (p.stage == Stage::Probing || p.stage == Stage::Removing || p.stage == Stage::Placing
        || p.stage == Stage::Writing) ==> p.index < names.len() && sanitize_spec(
        names[p.index as int],
    ) is Some
}

/// Confinement across a session: the initial position acts on no entry, and
/// every transition, whatever the host replies, leads again to a position that
/// acts only on an entry whose name was accepted. A rejected name stops the
/// session before its entry is probed, removed, placed or written.
pub proof fn lemma_only_accepted_entries_are_touched(
    names: Seq<Seq<char>>,
    force: bool,
    sig: bool,
    p: Progress,
    reply: bool,
)
    requires
        names.len() <= usize::MAX,
        p.index <= names.len(),
        acts_on_accepted(names, p),
    ensures
        acts_on_accepted(names, initial_progress()),
        acts_on_accepted(names, next_spec(names, force, sig, p, reply)),
        next_spec(names, force, sig, p, reply).index <= names.len(),
{
}

/// The reply of a host on which every operation succeeds and `existing(i)`
/// tells whether the target of entry `i` is already there.
pub open spec fn healthy_reply(existing: spec_fn(nat) -> bool, a: FsAction) -> bool {
    match a {
        FsAction::Probe(i) => existing(i as nat),
        _ => true,
    }
}

/// The position after `steps` transitions against such a host.
pub open spec fn run_spec(
    names: Seq<Seq<char>>,
    force: bool,
    sig: bool,
    p: Progress,
    existing: spec_fn(nat) -> bool,
    steps: nat,
) -> Progress
    decreases steps,
{
    if steps == 0 {
        p
    } else {
        let q = next_spec(names, force, sig, p, healthy_reply(existing, pending_spec(p)));
        run_spec(names, force, sig, q, existing, (steps - 1) as nat)
    }
}

/// A host on which every target is already present.
pub open spec fn everything_exists() -> spec_fn(nat) -> bool {
    |j: nat| true
}

pub open spec fn all_accepted(names: Seq<Seq<char>>) -> bool {
    forall|i: int| 0 <= i < names.len() ==> (#[trigger] sanitize_spec(names[i])) is Some
}

pub open spec fn no_directories(names: Seq<Seq<char>>) -> bool {
    forall|i: int| 0 <= i < names.len() ==> !denotes_directory(#[trigger] names[i])
}

pub open spec fn skipped_outcome(n: nat) -> ExtractionOutcome {
    ExtractionOutcome { entries_written: 0, entries_skipped: n as usize, entries_unplaced: 0 }
}

pub open spec fn written_outcome(n: nat) -> ExtractionOutcome {
    ExtractionOutcome { entries_written: n as usize, entries_skipped: 0, entries_unplaced: 0 }
}

proof fn lemma_run_split(
    names: Seq<Seq<char>>,
    force: bool,
    sig: bool,
    p: Progress,
    existing: spec_fn(nat) -> bool,
    a: nat,
    b: nat,
)
    ensures
        run_spec(names, force, sig, p, existing, a + b) == run_spec(
            names,
            force,
            sig,
            run_spec(names, force, sig, p, existing, a),
            existing,
            b,
        ),
    decreases a,
{
    if a > 0 {
        let q = next_spec(names, force, sig, p, healthy_reply(existing, pending_spec(p)));
        lemma_run_split(names, force, sig, q, existing, (a - 1) as nat, b);
        assert((a + b - 1) as nat == (a - 1) as nat + b);
    }
}

proof fn lemma_completed_stays(
    names: Seq<Seq<char>>,
    force: bool,
    sig: bool,
    p: Progress,
    existing: spec_fn(nat) -> bool,
    steps: nat,
)
    requires
        p.stage == Stage::Completed,
    ensures
        run_spec(names, force, sig, p, existing, steps) == p,
    decreases steps,
{
    if steps > 0 {
        lemma_completed_stays(names, force, sig, p, existing, (steps - 1) as nat);
    }
}

proof fn lemma_skip_from(names: Seq<Seq<char>>, sig: bool, i: nat, k: nat)
    requires
        all_accepted(names),
        names.len() <= usize::MAX,
        i + k <= names.len(),
    ensures
        run_spec(names, false, sig, enter_spec(names, sig, i, skipped_outcome(i)), everything_exists(), k)
            == enter_spec(names, sig, i + k, skipped_outcome(i + k)),
    decreases k,
{
    if k > 0 {
        let p = enter_spec(names, sig, i, skipped_outcome(i));
        assert(sanitize_spec(names[i as int]) is Some);
        assert(skipped_one(skipped_outcome(i)) == skipped_outcome(i + 1));
        lemma_skip_from(names, sig, i + 1, (k - 1) as nat);
        assert(i + 1 + (k - 1) == i + k);
    }
}

/// Rerunning without replacement: when every target already exists, as after
/// a first complete run, an extraction with `force_replace` off never removes
/// or writes a file, never fails, and completes with every entry skipped.
pub proof fn lemma_rerun_skips_everything(names: Seq<Seq<char>>, sig: bool)
    requires
        all_accepted(names),
        names.len() < usize::MAX,
    ensures
        forall|k: nat|
            k <= names.len() + 2 ==> {
                let a = pending_spec(
                    #[trigger] run_spec(names, false, sig, initial_progress(), everything_exists(), k),
                );
                !(a is Write) && !(a is RemoveExisting) && !(a is Failed)
            },
        pending_spec(run_spec(names, false, sig, initial_progress(), everything_exists(), names.len() + 2))
            == FsAction::Completed(skipped_outcome(names.len())),
{
    let t = everything_exists();
    let n = names.len();
    reveal_with_fuel(run_spec, 2);
    assert(skipped_outcome(0) == zero_outcome());
    assert forall|k: nat| k <= n + 2 implies {
        let a = pending_spec(#[trigger] run_spec(names, false, sig, initial_progress(), t, k));
        !(a is Write) && !(a is RemoveExisting) && !(a is Failed)
    } by {
        if k > 0 {
            let first = enter_spec(names, sig, 0, skipped_outcome(0));
            lemma_run_split(names, false, sig, initial_progress(), t, 1, (k - 1) as nat);
            if k - 1 <= n {
                lemma_skip_from(names, sig, 0, (k - 1) as nat);
                let j = (k - 1) as nat;
                if j < n {
                    assert(sanitize_spec(names[j as int]) is Some);
                }
            } else {
                lemma_skip_from(names, sig, 0, n);
                lemma_run_split(names, false, sig, first, t, n, 1);
            }
        }
    }
    let first = enter_spec(names, sig, 0, skipped_outcome(0));
    lemma_run_split(names, false, sig, initial_progress(), t, 1, n + 1);
    lemma_skip_from(names, sig, 0, n);
    lemma_run_split(names, false, sig, first, t, n, 1);
}

proof fn lemma_forced_from(
    names: Seq<Seq<char>>,
    sig: bool,
    existing: spec_fn(nat) -> bool,
    i: nat,
    f: nat,
)
    requires
        all_accepted(names),
        no_directories(names),
        names.len() <= usize::MAX,
        i <= names.len(),
        f >= 4 * (names.len() - i) + 1,
    ensures
        run_spec(names, true, sig, enter_spec(names, sig, i, written_outcome(i)), existing, f)
            == at(Stage::Completed, names.len(), written_outcome(names.len())),
    decreases names.len() - i,
{
    let n = names.len();
    let p = enter_spec(names, sig, i, written_outcome(i));
    reveal_with_fuel(run_spec, 5);
    if i == n {
        let done = at(Stage::Completed, n, written_outcome(n));
        if sig {
            lemma_run_split(names, true, sig, p, existing, 1, (f - 1) as nat);
            lemma_completed_stays(names, true, sig, done, existing, (f - 1) as nat);
        } else {
            lemma_completed_stays(names, true, sig, done, existing, f);
        }
    } else {
        assert(sanitize_spec(names[i as int]) is Some);
        assert(!denotes_directory(names[i as int]));
        assert(written_one(written_outcome(i)) == written_outcome(i + 1));
        let next = enter_spec(names, sig, i + 1, written_outcome(i + 1));
        let steps: nat = if existing(i) { 4 } else { 3 };
        lemma_run_split(names, true, sig, p, existing, steps, (f - steps) as nat);
        assert(run_spec(names, true, sig, p, existing, steps) == next);
        lemma_forced_from(names, sig, existing, i + 1, (f - steps) as nat);
    }
}

/// Forced extraction on a host where every operation succeeds: when all
/// entries are regular files with accepted names, the run completes with
/// `entries_written` equal to the number of entries, whichever targets existed.
pub proof fn lemma_forced_run_writes_everything(
    names: Seq<Seq<char>>,
    sig: bool,
    existing: spec_fn(nat) -> bool,
)
    requires
        all_accepted(names),
        no_directories(names),
        names.len() < usize::MAX,
    ensures
        pending_spec(run_spec(names, true, sig, initial_progress(), existing, 4 * names.len() + 2))
            == FsAction::Completed(written_outcome(names.len())),
{
    let n = names.len();
    assert(written_outcome(0) == zero_outcome());
    lemma_run_split(names, true, sig, initial_progress(), existing, 1, 4 * n + 1);
    lemma_forced_from(names, sig, existing, 0, 4 * n + 1);
}

/// An extraction in progress over the stored entry names of one archive.
pub struct ExtractionSession {
    names: Vec<String>,
    force_replace: bool,
    delete_signature: bool,
    progress: Progress,
    current_is_dir: bool,
}

impl ExtractionSession {
    pub closed spec fn names(&self) -> Seq<Seq<char>> {
        views(self.names@)
    }

    pub closed spec fn force_replace(&self) -> bool {
        self.force_replace
    }

    pub closed spec fn delete_signature(&self) -> bool {
        self.delete_signature
    }

    pub closed spec fn progress(&self) -> Progress {
        self.progress
    }

    pub closed spec fn wf(&self) -> bool {
        let p = self.progress;
        let n = self.names@.len();
        &&& n <= usize::MAX
        &&& p.index <= n
        &&& total(p.outcome) == p.index
        &&& p.stage == Stage::Start ==> p.index == 0 && p.outcome == zero_outcome()
        &&& (p.stage == Stage::Probing || p.stage == Stage::Removing || p.stage == Stage::Placing
            || p.stage == Stage::Writing) ==> {
            &&& p.index < n
            &&& sanitize_spec(self.names()[p.index as int]) is Some
            &&& self.current_is_dir == denotes_directory(self.names()[p.index as int])
        }
    }

    /// A session over the stored names of a bundle's entries, in archive order.
    pub fn new(names: Vec<String>, force_replace: bool, delete_signature: bool) -> (r: Self)
        ensures
            r.wf(),
            r.names() == views(names@),
            r.force_replace() == force_replace,
            r.delete_signature() == delete_signature,
            r.progress() == initial_progress(),
            r.names().len() <= usize::MAX,
    {
        let outcome = ExtractionOutcome { entries_written: 0, entries_skipped: 0, entries_unplaced: 0 };
        let entries = names.len();
        assert(views(names@).len() == entries);
        ExtractionSession {
            names,
            force_replace,
            delete_signature,
            progress: Progress { stage: Stage::Start, index: 0, outcome },
            current_is_dir: false,
        }
    }

    /// The action the session waits on.
    pub fn pending(&self) -> (r: FsAction)
        ensures
            r == pending_spec(self.progress()),
    {
        let p = self.progress;
        match p.stage {
            Stage::Start => FsAction::EnsureDestination,
            Stage::Probing => FsAction::Probe(p.index),
            Stage::Removing => FsAction::RemoveExisting(p.index),
            Stage::Placing => FsAction::CreateParents(p.index),
            Stage::Writing => FsAction::Write(p.index),
            Stage::Signing => FsAction::RemoveSignature,
            Stage::Completed => FsAction::Completed(p.outcome),
            Stage::Failed(e) => FsAction::Failed(e),
        }
    }

    /// The path below the destination of entry `entry`, or `None` when the
    /// index is out of range or the name is rejected.
    pub fn target(&self, entry: usize) -> (r: Option<EntryPath>)
        ensures
            entry >= self.names().len() ==> r is None,
            entry < self.names().len() ==> {
                &&& r is None <==> sanitize_spec(self.names()[entry as int]) is None
                &&& r matches Some(p) ==> Some(p.view_components()) == sanitize_spec(
                    self.names()[entry as int],
                ) && p.is_dir == denotes_directory(self.names()[entry as int])
            },
    {
        if entry < self.names.len() {
            sanitize_entry_name(self.names[entry].as_str())
        } else {
            None
        }
    }

    fn enter(&mut self, index: usize, outcome: ExtractionOutcome)
        requires
            index <= old(self).names@.len(),
            total(outcome) == index,
        ensures
            final(self).wf(),
            final(self).names == old(self).names,
            final(self).force_replace == old(self).force_replace,
            final(self).delete_signature == old(self).delete_signature,
            final(self).progress == enter_spec(
                old(self).names(),
                old(self).delete_signature,
                index as nat,
                outcome,
            ),
    {
        if index < self.names.len() {
            proof {
                assert(self.names()[index as int] == self.names@[index as int]@);
            }
            match sanitize_entry_name(self.names[index].as_str()) {
                Some(path) => {
                    self.current_is_dir = path.is_dir;
                    self.progress = Progress { stage: Stage::Probing, index, outcome };
                },
                None => {
                    self.progress = Progress {
                        stage: Stage::Failed(ExtractError::InvalidEntryPath),
                        index,
                        outcome,
                    };
                },
            }
        } else if self.delete_signature {
            self.progress = Progress { stage: Stage::Signing, index, outcome };
        } else {
            self.progress = Progress { stage: Stage::Completed, index, outcome };
        }
    }

    /// Takes the host's reply to the pending action and returns the next one.
    pub fn step(&mut self, reply: bool) -> (r: FsAction)
        requires
            old(self).wf(),
        ensures
            final(self).wf(),
            final(self).names() == old(self).names(),
            final(self).force_replace() == old(self).force_replace(),
            final(self).delete_signature() == old(self).delete_signature(),
            final(self).progress() == next_spec(
                old(self).names(),
                old(self).force_replace(),
                old(self).delete_signature(),
                old(self).progress(),
                reply,
            ),
            r == pending_spec(final(self).progress()),
            final(self).progress().index <= final(self).names().len() <= usize::MAX,
    {
        let p = self.progress;
        let i = p.index;
        let o = p.outcome;
        let n = self.names.len();
        assert(i <= n);
        match p.stage {
            Stage::Start => {
                if reply {
                    self.enter(0, o);
                } else {
                    self.progress = Progress { stage: Stage::Failed(ExtractError::Io), index: i, outcome: o };
                }
            },
            Stage::Probing => {
                if !reply {
                    self.progress = Progress { stage: Stage::Placing, index: i, outcome: o };
                } else if self.current_is_dir || !self.force_replace {
                    let o2 = ExtractionOutcome { entries_skipped: o.entries_skipped + 1, ..o };
                    self.enter(i + 1, o2);
                } else {
                    self.progress = Progress { stage: Stage::Removing, index: i, outcome: o };
                }
            },
            Stage::Removing => {
                if reply {
                    self.progress = Progress { stage: Stage::Placing, index: i, outcome: o };
                } else {
                    self.progress = Progress { stage: Stage::Failed(ExtractError::Io), index: i, outcome: o };
                }
            },
            Stage::Placing => {
                if !reply {
                    let o2 = ExtractionOutcome { entries_unplaced: o.entries_unplaced + 1, ..o };
                    self.enter(i + 1, o2);
                } else if self.current_is_dir {
                    let o2 = ExtractionOutcome { entries_written: o.entries_written + 1, ..o };
                    self.enter(i + 1, o2);
                } else {
                    self.progress = Progress { stage: Stage::Writing, index: i, outcome: o };
                }
            },
            Stage::Writing => {
                if reply {
                    let o2 = ExtractionOutcome { entries_written: o.entries_written + 1, ..o };
                    self.enter(i + 1, o2);
                } else {
                    self.progress = Progress { stage: Stage::Failed(ExtractError::Io), index: i, outcome: o };
                }
            },
            Stage::Signing => {
                if reply {
                    self.progress = Progress { stage: Stage::Completed, index: i, outcome: o };
                } else {
                    self.progress = Progress { stage: Stage::Failed(ExtractError::Io), index: i, outcome: o };
                }
            },
            Stage::Completed => {},
            Stage::Failed(_) => {},
        }
        self.pending()
    }
}

} // verus!
