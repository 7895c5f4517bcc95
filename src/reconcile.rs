use vstd::prelude::*;

use crate::activity::{flag_is_yes, no_pi_named, first_pi_at, find_pi_position, roster, Activity};
use crate::config::{role_id_for, Config, STR_VISITOR, UNSET_ID};
use crate::data_walker::MyFile;
use crate::database::{proposal_from, user_from, user_result_ok, Dataset, Experimenter, Proposal, User, UserError};
use crate::text::{file_name_of, is_yes, parse_i32, parsed_i32, path_file_name};

verus! {

/// Scan type recorded for every dataset: a step scan.
pub const SCAN_TYPE_STEP: i32 = 1;

/// What is known of a dataset directory before any write: whether it is reconciled, and
/// with which scheduled activity.
#[derive(Debug, Clone)]
pub enum DirectoryMatch {
    /// No raw file was found in it.
    NoRawFiles,
    /// The root search directory has no final component to match on.
    NoLeafName,
    /// No principal investigator of the schedule has this last name.
    NoPi { name: String },
    /// The activity (by index in the schedule) whose principal investigator matches.
    Matched { activity: usize, experimenter: usize },
}

/// `r` is the match of the name `name` against the schedule `acts`.
pub open spec fn name_match_ok(r: DirectoryMatch, acts: Seq<Activity>, name: Seq<char>) -> bool {
    match r {
        DirectoryMatch::Matched { activity, experimenter } => first_pi_at(acts, name, activity as int, experimenter as int),
        DirectoryMatch::NoPi { name: n } => n@ == name && no_pi_named(acts, name),
        _ => false,
    }
}

/// Matches a candidate principal-investigator name against the schedule: the first activity,
/// in schedule order, with a principal investigator of that last name.
pub fn match_pi_name(config: &Config, name: String) -> (r: DirectoryMatch)
    ensures
        name_match_ok(r, config.activities@, name@),
{
    match find_pi_position(&config.activities, name.as_str()) {
        Some((i, j)) => DirectoryMatch::Matched { activity: i, experimenter: j },
        None => DirectoryMatch::NoPi { name },
    }
}

/// Decides whether a dataset directory found under `root` is reconciled: it needs raw files,
/// and the final component of `root` must be the last name of a principal investigator.
pub fn match_directory(config: &Config, root: &str, raw_files: &Vec<MyFile>) -> (r: DirectoryMatch)
    ensures
        raw_files@.len() == 0 ==> r is NoRawFiles,
        raw_files@.len() > 0 ==> match path_file_name(root@) {
            None => r is NoLeafName,
            Some(name) => name_match_ok(r, config.activities@, name),
        },
{
    if raw_files.len() == 0 {
        return DirectoryMatch::NoRawFiles;
    }
    match file_name_of(root) {
        Some(name) => match_pi_name(config, name),
        None => DirectoryMatch::NoLeafName,
    }
}

/// Where the reconciliation of one matched directory stands.
#[derive(Debug, Clone, Copy, PartialEq, Eq, Structural)]
pub enum Phase {
    /// Writing a user row for experimenter `next` of the proposal.
    Users { next: usize },
    /// Writing the proposal row.
    Proposal,
    /// Writing the dataset row of raw file `file`.
    Datasets { file: usize },
    /// Linking experimenter `next` to the dataset row of raw file `file`.
    Links { file: usize, next: usize, dataset_id: i32 },
    /// Every step was taken.
    Done,
    /// The proposal row could not be written; nothing more is written.
    ProposalFailed,
}

/// What the store answered to a step.
#[derive(Debug, Clone, Copy, PartialEq, Eq, Structural)]
pub enum Outcome {
    /// The write went through and returned no id (or the step wrote nothing).
    Applied,
    /// The write went through and returned this id; `-1` means that no row was inserted.
    Returned(i32),
    /// The write failed.
    Failed,
}

/// Why an experimenter cannot be linked to a dataset.
#[derive(Debug, Clone, Copy, PartialEq, Eq, Structural)]
pub enum LinkError {
    /// The badge is not a decimal `i32`.
    BadBadge,
    /// The experimenter's role is not in the reference data.
    UnknownRole,
}

/// Why a raw file gets no dataset row.
#[derive(Debug, Clone, Copy, PartialEq, Eq, Structural)]
pub enum DatasetError {
    /// The run was not found in the reference data.
    UnknownRun,
    /// The beamline was not found in the reference data.
    UnknownBeamline,
}

/// The next thing to do for a matched directory. The `Skip` steps write nothing: they are
/// reported, and answered with `Outcome::Applied`. A raw file gets no dataset row, and so no
/// links, while the run or the beamline is unresolved (`UNSET_ID`).
#[derive(Debug, Clone)]
pub enum Step {
    InsertUser(User),
    SkipUser { badge: String, problem: UserError },
    InsertProposal(Proposal),
    SkipProposal,
    InsertDataset(Dataset),
    SkipDataset { path: String, problem: DatasetError },
    InsertLink(Experimenter),
    SkipLink { badge: String, problem: LinkError },
    Finished,
}

/// The first phase: the users, or the proposal when the roster is empty.
pub open spec fn start_phase(n_exps: nat) -> Phase {
    if n_exps == 0 {
        Phase::Proposal
    } else {
        Phase::Users { next: 0 }
    }
}

/// The phase after raw file `file` is dealt with.
pub open spec fn after_file(file: int, n_files: nat) -> Phase {
    if file + 1 < n_files {
        Phase::Datasets { file: (file + 1) as usize }
    } else {
        Phase::Done
    }
}

/// The usable dataset id in an outcome: one that is returned and not negative.
pub open spec fn returned_id(o: Outcome) -> Option<i32> {
    match o {
        Outcome::Returned(id) => if id >= 0 { Some(id) } else { None },
        _ => None,
    }
}

/// The phase after `p`, given the answer `o` to its step, for a proposal with `n_exps`
/// experimenters (`has_id`: the proposal has an id) and a directory with `n_files` raw files.
pub open spec fn advance_phase(p: Phase, n_exps: nat, n_files: nat, has_id: bool, o: Outcome) -> Phase {
    match p {
        Phase::Users { next } => if next + 1 < n_exps {
            Phase::Users { next: (next + 1) as usize }
        } else {
            Phase::Proposal
        },
        Phase::Proposal => if !has_id || o == Outcome::Failed {
            Phase::ProposalFailed
        } else if n_files == 0 {
            Phase::Done
        } else {
            Phase::Datasets { file: 0 }
        },
        Phase::Datasets { file } => match returned_id(o) {
            Some(id) => if n_exps > 0 {
                Phase::Links { file, next: 0, dataset_id: id }
            } else {
                after_file(file as int, n_files)
            },
            None => after_file(file as int, n_files),
        },
        Phase::Links { file, next, dataset_id } => if next + 1 < n_exps {
            Phase::Links { file, next: (next + 1) as usize, dataset_id }
        } else {
            after_file(file as int, n_files)
        },
        Phase::Done => Phase::Done,
        Phase::ProposalFailed => Phase::ProposalFailed,
    }
}

/// The proposal id that link rows carry.
pub open spec fn proposal_id_of(a: Activity) -> i32 {
    match a.beamtime.proposal.gupId {
        Some(id) => id,
        None => -1i32,
    }
}

/// `s` is the step that phase `p` calls for.
pub open spec fn step_agrees(s: Step, p: Phase, a: Activity, files: Seq<MyFile>, c: Config) -> bool {
    let exps = roster(a);
    match p {
        Phase::Users { next } => if next < exps.len() {
            let e = exps[next as int];
            match c.db_access_control.lookup(STR_VISITOR@) {
                None => s matches Step::SkipUser { badge, problem } && badge@ == e.badge@ && problem
                    == UserError::UnknownAccessLevel,
                Some(uac) => match s {
                    Step::InsertUser(u) => user_from(u, e, uac),
                    Step::SkipUser { badge, problem } => badge@ == e.badge@ && user_result_ok(
                        Err(problem),
                        e,
                        uac,
                    ),
                    _ => false,
                },
            }
        } else {
            s is Finished
        },
        Phase::Proposal => match s {
            Step::InsertProposal(row) => proposal_from(row, a.beamtime.proposal),
            Step::SkipProposal => a.beamtime.proposal.gupId is None,
            _ => false,
        },
        Phase::Datasets { file } => if file < files.len() && c.run_id == UNSET_ID {
            s matches Step::SkipDataset { path, problem } && path@ == files[file as int].name@ && problem
                == DatasetError::UnknownRun
        } else if file < files.len() && c.beamline_id == UNSET_ID {
            s matches Step::SkipDataset { path, problem } && path@ == files[file as int].name@ && problem
                == DatasetError::UnknownBeamline
        } else if file < files.len() {
            s matches Step::InsertDataset(d) && d.id == 0 && d.beamline_id == c.beamline_id
                && d.syncotron_run_id == c.run_id && d.scan_type_id == SCAN_TYPE_STEP && d.path@
                == files[file as int].name@ && d.acquisition_timestamp == files[file as int].ctime
        } else {
            s is Finished
        },
        Phase::Links { file, next, dataset_id } => if next < exps.len() {
            let e = exps[next as int];
            match parsed_i32(e.badge@) {
                None => s matches Step::SkipLink { badge, problem } && badge@ == e.badge@ && problem
                    == LinkError::BadBadge,
                Some(b) => match role_id_for(c.db_experimenter_roles, flag_is_yes(e.piFlag)) {
                    None => s matches Step::SkipLink { badge, problem } && badge@ == e.badge@ && problem
                        == LinkError::UnknownRole,
                    Some(role) => s == Step::InsertLink(
                        Experimenter {
                            datasest_id: dataset_id,
                            user_badge: b,
                            proposal_id: proposal_id_of(a),
                            experiment_role_id: role,
                        },
                    ),
                },
            }
        } else {
            s is Finished
        },
        Phase::Done => s is Finished,
        Phase::ProposalFailed => s is Finished,
    }
}

/// The reconciliation of one dataset directory with its matched activity: users, then the
/// proposal, then for each raw file its dataset row and the links of every experimenter to it.
/// The caller performs each step and hands back what the store answered.
#[derive(Debug, Clone, Copy)]
pub struct Reconciliation {
    pub phase: Phase,
}

impl Reconciliation {
    pub fn start(activity: &Activity) -> (r: Self)
        ensures
            r.phase == start_phase(roster(*activity).len()),
    {
        if activity.beamtime.proposal.experimenters.len() == 0 {
            Reconciliation { phase: Phase::Proposal }
        } else {
            Reconciliation { phase: Phase::Users { next: 0 } }
        }
    }

    /// Whether nothing is left to do.
    pub fn is_finished(&self) -> (r: bool)
        ensures
            r == (self.phase is Done || self.phase is ProposalFailed),
    {
        match self.phase {
            Phase::Done => true,
            Phase::ProposalFailed => true,
            _ => false,
        }
    }

    /// The step that the current phase calls for.
    pub fn next_step(&self, activity: &Activity, raw_files: &Vec<MyFile>, config: &Config) -> (r: Step)
        ensures
            step_agrees(r, self.phase, *activity, raw_files@, *config),
    {
        let exps = &activity.beamtime.proposal.experimenters;
        match self.phase {
            Phase::Users { next } => {
                if next >= exps.len() {
                    return Step::Finished;
                }
                let e = &exps[next];
                match config.db_access_control.get(STR_VISITOR) {
                    None => Step::SkipUser { badge: e.badge.clone(), problem: UserError::UnknownAccessLevel },
                    Some(uac) => match User::from_experimenter(e, uac) {
                        Ok(u) => Step::InsertUser(u),
                        Err(problem) => Step::SkipUser { badge: e.badge.clone(), problem },
                    },
                }
            },
            Phase::Proposal => match Proposal::from_proposal(&activity.beamtime.proposal) {
                Some(row) => Step::InsertProposal(row),
                None => Step::SkipProposal,
            },
            Phase::Datasets { file } => {
                if file >= raw_files.len() {
                    return Step::Finished;
                }
                let f = &raw_files[file];
                if config.run_id == UNSET_ID {
                    return Step::SkipDataset { path: f.name.clone(), problem: DatasetError::UnknownRun };
                }
                if config.beamline_id == UNSET_ID {
                    return Step::SkipDataset { path: f.name.clone(), problem: DatasetError::UnknownBeamline };
                }
                Step::InsertDataset(
                    Dataset::new(config.beamline_id, config.run_id, SCAN_TYPE_STEP, f.name.as_str(), f.ctime),
                )
            },
            Phase::Links { file, next, dataset_id } => {
                if next >= exps.len() {
                    return Step::Finished;
                }
                let e = &exps[next];
                let badge = match parse_i32(e.badge.as_str()) {
                    Some(b) => b,
                    None => return Step::SkipLink { badge: e.badge.clone(), problem: LinkError::BadBadge },
                };
                let flag = if e.is_pi() { "Y" } else { "N" };
                proof {
                    reveal_strlit("Y");
                    reveal_strlit("N");
                    assert("Y"@ =~= seq!['Y']);
                    assert(!is_yes("N"@)) by {
                        assert("N"@[0] != seq!['Y'][0]);
                    }
                }
                match config.get_experimenter_role_id(flag) {
                    Some(role) => {
                        let proposal_id = match activity.beamtime.proposal.gupId {
                            Some(id) => id,
                            None => -1,
                        };
                        Step::InsertLink(Experimenter::new(dataset_id, badge, proposal_id, role))
                    },
                    None => Step::SkipLink { badge: e.badge.clone(), problem: LinkError::UnknownRole },
                }
            },
            Phase::Done => Step::Finished,
            Phase::ProposalFailed => Step::Finished,
        }
    }

    /// Moves on, given what the store answered to the current step.
    pub fn advance(&mut self, activity: &Activity, raw_files: &Vec<MyFile>, outcome: Outcome)
        ensures
            final(self).phase == advance_phase(
                old(self).phase,
                roster(*activity).len(),
                raw_files@.len(),
                activity.beamtime.proposal.gupId is Some,
                outcome,
            ),
    {
        let n_exps = activity.beamtime.proposal.experimenters.len();
        let n_files = raw_files.len();
        let next_file = |file: usize| -> (p: Phase)
            ensures
                p == after_file(file as int, n_files as nat),
            {
                if file < n_files && file < n_files - 1 {
                    Phase::Datasets { file: file + 1 }
                } else {
                    Phase::Done
                }
            };
        self.phase = match self.phase {
            Phase::Users { next } => {
                if next < n_exps && next < n_exps - 1 {
                    Phase::Users { next: next + 1 }
                } else {
                    Phase::Proposal
                }
            },
            Phase::Proposal => {
                if activity.beamtime.proposal.gupId.is_none() || outcome == Outcome::Failed {
                    Phase::ProposalFailed
                } else if n_files == 0 {
                    Phase::Done
                } else {
                    Phase::Datasets { file: 0 }
                }
            },
            Phase::Datasets { file } => match outcome {
                Outcome::Returned(id) => {
                    if id >= 0 && n_exps > 0 {
                        Phase::Links { file, next: 0, dataset_id: id }
                    } else {
                        next_file(file)
                    }
                },
                _ => next_file(file),
            },
            Phase::Links { file, next, dataset_id } => {
                if next < n_exps && next < n_exps - 1 {
                    Phase::Links { file, next: next + 1, dataset_id }
                } else {
                    next_file(file)
                }
            },
            Phase::Done => Phase::Done,
            Phase::ProposalFailed => Phase::ProposalFailed,
        };
    }
}

/// The phase of a run after the store's first `k` answers `outs`, for a proposal with
/// `n_exps` experimenters (`has_id`: the proposal has an id) and `n_files` raw files.
pub open spec fn phase_at(n_exps: nat, n_files: nat, has_id: bool, outs: Seq<Outcome>, k: nat) -> Phase
    decreases k,
{
    if k == 0 {
        start_phase(n_exps)
    } else {
        advance_phase(phase_at(n_exps, n_files, has_id, outs, (k - 1) as nat), n_exps, n_files, has_id, outs[k - 1])
    }
}

/// Before answer `k`, the run was at the dataset step of raw file `g`.
pub open spec fn attempted(n_exps: nat, n_files: nat, has_id: bool, outs: Seq<Outcome>, g: nat, k: nat) -> bool {
    exists|i: nat| i < k && #[trigger] phase_at(n_exps, n_files, has_id, outs, i) == (Phase::Datasets { file: g as usize })
}

/// Links are written only after their dataset: whenever a run is at a link step for a
/// dataset id, an earlier step of the same run inserted the dataset row of the same raw file
/// and the store returned that id.
pub proof fn lemma_links_follow_their_dataset(n_exps: nat, n_files: nat, has_id: bool, outs: Seq<Outcome>, k: nat)
    ensures
        phase_at(n_exps, n_files, has_id, outs, k) matches Phase::Links { file, next, dataset_id } ==> {
            &&& dataset_id >= 0
            &&& exists|i: nat|
                i < k && #[trigger] phase_at(n_exps, n_files, has_id, outs, i) == (Phase::Datasets { file })
                    && outs[i as int] == Outcome::Returned(dataset_id)
        },
    decreases k,
{
    if k > 0 {
        let pk = (k - 1) as nat;
        lemma_links_follow_their_dataset(n_exps, n_files, has_id, outs, pk);
        let prev = phase_at(n_exps, n_files, has_id, outs, pk);
        if let Phase::Links { file, next, dataset_id } = phase_at(n_exps, n_files, has_id, outs, k) {
            if let Phase::Datasets { file: f } = prev {
                assert(phase_at(n_exps, n_files, has_id, outs, pk) == (Phase::Datasets { file }));
            }
        }
    }
}

proof fn lemma_attempted_so_far(n_exps: nat, n_files: nat, has_id: bool, outs: Seq<Outcome>, k: nat)
    ensures
        match phase_at(n_exps, n_files, has_id, outs, k) {
            Phase::Datasets { file } => forall|g: nat| g < file ==> #[trigger] attempted(n_exps, n_files, has_id, outs, g, k),
            Phase::Links { file, .. } => forall|g: nat| g <= file ==> #[trigger] attempted(n_exps, n_files, has_id, outs, g, k),
            Phase::Done => forall|g: nat| g < n_files ==> #[trigger] attempted(n_exps, n_files, has_id, outs, g, k),
            _ => true,
        },
    decreases k,
{
    if k > 0 {
        let pk = (k - 1) as nat;
        lemma_attempted_so_far(n_exps, n_files, has_id, outs, pk);
        assert forall|g: nat| attempted(n_exps, n_files, has_id, outs, g, pk) implies #[trigger] attempted(
            n_exps,
            n_files,
            has_id,
            outs,
            g,
            k,
        ) by {
            let i = choose|i: nat|
                i < pk && #[trigger] phase_at(n_exps, n_files, has_id, outs, i) == (Phase::Datasets { file: g as usize });
            assert(phase_at(n_exps, n_files, has_id, outs, i) == (Phase::Datasets { file: g as usize }));
        }
        let prev = phase_at(n_exps, n_files, has_id, outs, pk);
        if let Phase::Datasets { file } = prev {
            assert(attempted(n_exps, n_files, has_id, outs, file as nat, k)) by {
                assert(phase_at(n_exps, n_files, has_id, outs, pk) == (Phase::Datasets { file: (file as nat) as usize }));
            }
        }
    }
}

/// A failed dataset insert stops nothing but the links of its own raw file: a run that is
/// done has been at the dataset step of every raw file, whatever the store answered.
pub proof fn lemma_every_file_attempted(n_exps: nat, n_files: nat, has_id: bool, outs: Seq<Outcome>, k: nat)
    requires
        phase_at(n_exps, n_files, has_id, outs, k) == Phase::Done,
    ensures
        forall|g: nat| g < n_files ==> #[trigger] attempted(n_exps, n_files, has_id, outs, g, k),
{
    lemma_attempted_so_far(n_exps, n_files, has_id, outs, k);
}

/// After a dataset insert that returns a usable id, each experimenter of the roster in turn
/// gets a link step to that dataset, whatever the store answers to the links.
pub proof fn lemma_links_cover_roster(n_exps: nat, n_files: nat, has_id: bool, outs: Seq<Outcome>, i: nat, file: usize, dataset_id: i32, j: nat)
    requires
        phase_at(n_exps, n_files, has_id, outs, i) == (Phase::Datasets { file }),
        returned_id(outs[i as int]) == Some(dataset_id),
        j < n_exps,
        n_exps <= usize::MAX,
    ensures
        phase_at(n_exps, n_files, has_id, outs, i + 1 + j) == (Phase::Links { file, next: j as usize, dataset_id }),
    decreases j,
{
    if j > 0 {
        lemma_links_cover_roster(n_exps, n_files, has_id, outs, i, file, dataset_id, (j - 1) as nat);
        assert((i + 1 + j - 1) as nat == i + 1 + (j - 1) as nat);
    }
}

/// How many link steps follow a dataset step that the store answered with `o`: one per
/// experimenter when it returned a usable id, else none.
pub open spec fn link_gap(n_exps: nat, o: Outcome) -> nat {
    if returned_id(o) is Some && n_exps > 0 {
        n_exps
    } else {
        0
    }
}

/// The index, among the store's answers `outs`, of the dataset step of raw file `f` in a run
/// whose proposal was written: right after the users and the proposal, then after each earlier
/// file's dataset step and its link steps.
pub open spec fn file_start(n_exps: nat, outs: Seq<Outcome>, f: nat) -> nat
    decreases f,
{
    if f == 0 {
        n_exps + 1
    } else {
        let s = file_start(n_exps, outs, (f - 1) as nat);
        s + 1 + link_gap(n_exps, outs[s as int])
    }
}

proof fn lemma_one_file(n_exps: nat, n_files: nat, has_id: bool, outs: Seq<Outcome>, f: nat, i: nat)
    requires
        phase_at(n_exps, n_files, has_id, outs, i) == (Phase::Datasets { file: f as usize }),
        f < n_files,
        n_exps <= usize::MAX,
        n_files <= usize::MAX,
    ensures
        forall|j: nat|
            j < link_gap(n_exps, outs[i as int]) ==> #[trigger] phase_at(n_exps, n_files, has_id, outs, i + 1 + j)
                == (Phase::Links { file: f as usize, next: j as usize, dataset_id: returned_id(outs[i as int])->Some_0 }),
        phase_at(n_exps, n_files, has_id, outs, i + 1 + link_gap(n_exps, outs[i as int])) == after_file(f as int, n_files),
{
    let g = link_gap(n_exps, outs[i as int]);
    if g > 0 {
        let d = returned_id(outs[i as int])->Some_0;
        assert forall|j: nat| j < g implies #[trigger] phase_at(n_exps, n_files, has_id, outs, i + 1 + j)
            == (Phase::Links { file: f as usize, next: j as usize, dataset_id: d }) by {
            lemma_links_cover_roster(n_exps, n_files, has_id, outs, i, f as usize, d, j);
        }
        lemma_links_cover_roster(n_exps, n_files, has_id, outs, i, f as usize, d, (n_exps - 1) as nat);
        assert((i + 1 + g - 1) as nat == i + 1 + (n_exps - 1) as nat);
    }
}

proof fn lemma_file_starts(n_exps: nat, n_files: nat, has_id: bool, outs: Seq<Outcome>, f: nat)
    requires
        has_id,
        outs[n_exps as int] != Outcome::Failed,
        f < n_files,
        n_exps <= usize::MAX,
        n_files <= usize::MAX,
    ensures
        phase_at(n_exps, n_files, has_id, outs, file_start(n_exps, outs, f)) == (Phase::Datasets { file: f as usize }),
    decreases f,
{
    if f == 0 {
        lemma_roster_steps_fixed(n_exps, n_files, has_id, outs, outs, n_exps);
        assert((n_exps + 1 - 1) as nat == n_exps);
    } else {
        let pf = (f - 1) as nat;
        lemma_file_starts(n_exps, n_files, has_id, outs, pf);
        lemma_one_file(n_exps, n_files, has_id, outs, pf, file_start(n_exps, outs, pf));
    }
}

/// A failed dataset insert stops nothing but the links of its own raw file. Once the proposal
/// row is written, raw file `f` gets its dataset step at `file_start(f)`, in file order; the
/// steps up to the next file's are link steps to the dataset id the store returned, one per
/// experimenter, and there are none when the store failed or returned no usable id; after the
/// last file the run is done. So each raw file gets exactly one dataset step, whatever the store
/// answered to the others.
pub proof fn lemma_each_file_once_in_order(n_exps: nat, n_files: nat, has_id: bool, outs: Seq<Outcome>)
    requires
        has_id,
        outs[n_exps as int] != Outcome::Failed,
        n_exps <= usize::MAX,
        n_files <= usize::MAX,
    ensures
        forall|f: nat|
            f < n_files ==> phase_at(n_exps, n_files, has_id, outs, #[trigger] file_start(n_exps, outs, f))
                == (Phase::Datasets { file: f as usize }),
        forall|f: nat, j: nat|
            f < n_files && j < link_gap(n_exps, outs[file_start(n_exps, outs, f) as int]) ==> #[trigger] phase_at(
                n_exps,
                n_files,
                has_id,
                outs,
                file_start(n_exps, outs, f) + 1 + j,
            ) == (Phase::Links {
                file: f as usize,
                next: j as usize,
                dataset_id: returned_id(outs[file_start(n_exps, outs, f) as int])->Some_0,
            }),
        phase_at(n_exps, n_files, has_id, outs, file_start(n_exps, outs, n_files)) == Phase::Done,
{
    assert forall|f: nat| f < n_files implies phase_at(n_exps, n_files, has_id, outs, #[trigger] file_start(n_exps, outs, f))
        == (Phase::Datasets { file: f as usize }) by {
        lemma_file_starts(n_exps, n_files, has_id, outs, f);
    }
    assert forall|f: nat, j: nat|
        f < n_files && j < link_gap(n_exps, outs[file_start(n_exps, outs, f) as int]) implies #[trigger] phase_at(
        n_exps,
        n_files,
        has_id,
        outs,
        file_start(n_exps, outs, f) + 1 + j,
    ) == (Phase::Links {
        file: f as usize,
        next: j as usize,
        dataset_id: returned_id(outs[file_start(n_exps, outs, f) as int])->Some_0,
    }) by {
        lemma_file_starts(n_exps, n_files, has_id, outs, f);
        lemma_one_file(n_exps, n_files, has_id, outs, f, file_start(n_exps, outs, f));
    }
    if n_files == 0 {
        lemma_roster_steps_fixed(n_exps, n_files, has_id, outs, outs, n_exps);
        assert((n_exps + 1 - 1) as nat == n_exps);
    } else {
        let last = (n_files - 1) as nat;
        lemma_file_starts(n_exps, n_files, has_id, outs, last);
        lemma_one_file(n_exps, n_files, has_id, outs, last, file_start(n_exps, outs, last));
    }
}

/// The user and proposal steps of a run do not depend on the store's answers: any two runs
/// over the same schedule and files are at the same step while writing users and the
/// proposal, so they issue the same user and proposal rows.
pub proof fn lemma_roster_steps_fixed(n_exps: nat, n_files: nat, has_id: bool, first: Seq<Outcome>, second: Seq<Outcome>, k: nat)
    requires
        k <= n_exps,
        n_exps <= usize::MAX,
    ensures
        phase_at(n_exps, n_files, has_id, first, k) == phase_at(n_exps, n_files, has_id, second, k),
        phase_at(n_exps, n_files, has_id, first, k) == (if k < n_exps {
            Phase::Users { next: k as usize }
        } else {
            Phase::Proposal
        }),
    decreases k,
{
    if k > 0 {
        lemma_roster_steps_fixed(n_exps, n_files, has_id, first, second, (k - 1) as nat);
    }
}

/// An insert-or-ignore write of `row` under `key`: a row already stored under the key stays.
pub open spec fn insert_or_ignore<K, V>(table: Map<K, V>, key: K, row: V) -> Map<K, V> {
    if table.contains_key(key) {
        table
    } else {
        table.insert(key, row)
    }
}

/// The table after one step, which writes the keyed row `w` by insert-or-ignore, or nothing.
pub open spec fn apply_write<K, V>(table: Map<K, V>, w: Option<(K, V)>) -> Map<K, V> {
    match w {
        Some((key, row)) => insert_or_ignore(table, key, row),
        None => table,
    }
}

/// The table after the steps `writes`, in order.
pub open spec fn apply_writes<K, V>(table: Map<K, V>, writes: Seq<Option<(K, V)>>) -> Map<K, V>
    decreases writes.len(),
{
    if writes.len() == 0 {
        table
    } else {
        apply_write(apply_writes(table, writes.drop_last()), writes.last())
    }
}

proof fn lemma_apply_writes_covers<K, V>(table: Map<K, V>, writes: Seq<Option<(K, V)>>)
    ensures
        forall|i: int|
            0 <= i < writes.len() && (#[trigger] writes[i]) is Some ==> apply_writes(table, writes).contains_key(
                writes[i]->Some_0.0,
            ),
    decreases writes.len(),
{
    if writes.len() > 0 {
        lemma_apply_writes_covers(table, writes.drop_last());
        assert forall|i: int| 0 <= i < writes.len() && (#[trigger] writes[i]) is Some implies apply_writes(
            table,
            writes,
        ).contains_key(writes[i]->Some_0.0) by {
            if i < writes.len() - 1 {
                assert(writes.drop_last()[i] == writes[i]);
            }
        }
    }
}

proof fn lemma_apply_writes_present<K, V>(table: Map<K, V>, writes: Seq<Option<(K, V)>>)
    requires
        forall|i: int|
            0 <= i < writes.len() && (#[trigger] writes[i]) is Some ==> table.contains_key(writes[i]->Some_0.0),
    ensures
        apply_writes(table, writes) == table,
    decreases writes.len(),
{
    if writes.len() > 0 {
        assert forall|i: int| 0 <= i < writes.drop_last().len() && (#[trigger] writes.drop_last()[i]) is Some implies table.contains_key(
            writes.drop_last()[i]->Some_0.0,
        ) by {
            assert(writes.drop_last()[i] == writes[i]);
        }
        lemma_apply_writes_present(table, writes.drop_last());
        assert(writes[writes.len() - 1] == writes.last());
    }
}

/// Writing the same rows a second time by insert-or-ignore leaves the table as the first
/// time left it.
pub proof fn lemma_rewrite_changes_nothing<K, V>(table: Map<K, V>, writes: Seq<Option<(K, V)>>)
    ensures
        apply_writes(apply_writes(table, writes), writes) == apply_writes(table, writes),
{
    lemma_apply_writes_covers(table, writes);
    lemma_apply_writes_present(apply_writes(table, writes), writes);
}

/// The row that the user step for experimenter `k` writes to the users table: keyed by the
/// badge, and made from the experimenter (and the visitor access level, the same for every
/// user of a run); none when the badge does not parse or the access level is unknown.
pub open spec fn user_write_at(a: Activity, c: Config, k: int) -> Option<(i32, crate::activity::Experimenter)> {
    let e = roster(a)[k];
    match (c.db_access_control.lookup(STR_VISITOR@), parsed_i32(e.badge@)) {
        (Some(_), Some(badge)) => Some((badge, e)),
        _ => None,
    }
}

/// The row that the proposal step writes to the proposals table, keyed by the proposal id.
pub open spec fn proposal_write(a: Activity) -> Option<(i32, crate::activity::Proposal)> {
    match a.beamtime.proposal.gupId {
        Some(id) => Some((id, a.beamtime.proposal)),
        None => None,
    }
}

/// What the step of phase `p` writes to the users table.
pub open spec fn user_write_of(a: Activity, c: Config) -> spec_fn(Phase) -> Option<(i32, crate::activity::Experimenter)> {
    |p: Phase|
        match p {
            Phase::Users { next } => if next < roster(a).len() {
                user_write_at(a, c, next as int)
            } else {
                None
            },
            _ => None,
        }
}

/// What the step of phase `p` writes to the proposals table.
pub open spec fn proposal_write_of(a: Activity) -> spec_fn(Phase) -> Option<(i32, crate::activity::Proposal)> {
    |p: Phase|
        match p {
            Phase::Proposal => proposal_write(a),
            _ => None,
        }
}

/// The steps write those rows: a user step inserts a user exactly when `user_write_at` gives a
/// row, with that badge, built from that experimenter; the proposal step inserts a proposal
/// exactly when `proposal_write` gives one, with that id; no other step writes either table.
pub proof fn lemma_steps_write_modelled_rows(s: Step, p: Phase, a: Activity, files: Seq<MyFile>, c: Config)
    requires
        step_agrees(s, p, a, files, c),
    ensures
        s is InsertUser <==> user_write_of(a, c)(p) is Some,
        s matches Step::InsertUser(u) ==> (user_write_of(a, c)(p) == Some((u.badge, roster(a)[p->Users_next as int]))
            && user_from(u, roster(a)[p->Users_next as int], c.db_access_control.lookup(STR_VISITOR@)->Some_0)),
        s is InsertProposal <==> proposal_write_of(a)(p) is Some,
        s matches Step::InsertProposal(r) ==> proposal_write_of(a)(p) == Some((r.id, a.beamtime.proposal)) && proposal_from(r, a.beamtime.proposal),
{
}

/// A table after the first `k` steps of a run whose store gave the answers `outs`, where
/// `write_of` says what each phase's step writes to it.
pub open spec fn table_after<K, V>(
    table: Map<K, V>,
    write_of: spec_fn(Phase) -> Option<(K, V)>,
    n_exps: nat,
    n_files: nat,
    has_id: bool,
    outs: Seq<Outcome>,
    k: nat,
) -> Map<K, V>
    decreases k,
{
    if k == 0 {
        table
    } else {
        apply_write(
            table_after(table, write_of, n_exps, n_files, has_id, outs, (k - 1) as nat),
            write_of(phase_at(n_exps, n_files, has_id, outs, (k - 1) as nat)),
        )
    }
}

proof fn lemma_past_proposal(n_exps: nat, n_files: nat, has_id: bool, outs: Seq<Outcome>, k: nat)
    requires
        k > n_exps,
        n_exps <= usize::MAX,
    ensures
        !(phase_at(n_exps, n_files, has_id, outs, k) is Users),
        !(phase_at(n_exps, n_files, has_id, outs, k) is Proposal),
    decreases k,
{
    if k == n_exps + 1 {
        lemma_roster_steps_fixed(n_exps, n_files, has_id, outs, outs, n_exps);
        assert((k - 1) as nat == n_exps);
    } else {
        lemma_past_proposal(n_exps, n_files, has_id, outs, (k - 1) as nat);
    }
}

/// The roster and proposal writes of a run, which are the same in every run.
pub open spec fn roster_writes<K, V>(write_of: spec_fn(Phase) -> Option<(K, V)>, n_exps: nat) -> Seq<Option<(K, V)>> {
    Seq::new(
        n_exps + 1,
        |i: int|
            write_of(
                if i < n_exps {
                    Phase::Users { next: i as usize }
                } else {
                    Phase::Proposal
                },
            ),
    )
}

proof fn lemma_table_after_run<K, V>(
    table: Map<K, V>,
    write_of: spec_fn(Phase) -> Option<(K, V)>,
    n_exps: nat,
    n_files: nat,
    has_id: bool,
    outs: Seq<Outcome>,
    k: nat,
)
    requires
        n_exps <= usize::MAX,
        forall|p: Phase| !(p is Users) && !(p is Proposal) ==> (#[trigger] write_of(p)) is None,
    ensures
        k <= n_exps + 1 ==> table_after(table, write_of, n_exps, n_files, has_id, outs, k) == apply_writes(
            table,
            roster_writes(write_of, n_exps).take(k as int),
        ),
        k > n_exps ==> table_after(table, write_of, n_exps, n_files, has_id, outs, k) == apply_writes(
            table,
            roster_writes(write_of, n_exps),
        ),
    decreases k,
{
    let ws = roster_writes(write_of, n_exps);
    if k == 0 {
        assert(ws.take(0) =~= Seq::<Option<(K, V)>>::empty());
    } else {
        let pk = (k - 1) as nat;
        lemma_table_after_run(table, write_of, n_exps, n_files, has_id, outs, pk);
        if k <= n_exps + 1 {
            lemma_roster_steps_fixed(n_exps, n_files, has_id, outs, outs, pk);
            assert(ws.take(k as int).drop_last() =~= ws.take(pk as int));
            assert(ws.take(k as int).last() == ws[pk as int]);
            if k == n_exps + 1 {
                assert(ws.take(k as int) =~= ws);
            }
        } else {
            lemma_past_proposal(n_exps, n_files, has_id, outs, pk);
        }
    }
}

/// Running the reconciliation of a directory again leaves the users and proposals tables as
/// the first run left them, whatever the store answered in either run: the first run is taken
/// past its proposal step (`k1` answers), the second is stopped after any `k2` answers past its
/// proposal step. Dataset rows, which every run inserts anew, and the links to them are not
/// covered.
pub proof fn lemma_rerun_keeps_users_and_proposals(
    users: Map<i32, crate::activity::Experimenter>,
    proposals: Map<i32, crate::activity::Proposal>,
    a: Activity,
    c: Config,
    n_files: nat,
    first: Seq<Outcome>,
    k1: nat,
    second: Seq<Outcome>,
    k2: nat,
)
    requires
        k1 > roster(a).len(),
        k2 > roster(a).len(),
        roster(a).len() <= usize::MAX,
    ensures
        ({
            let (n, h) = (roster(a).len(), a.beamtime.proposal.gupId is Some);
            let once = table_after(users, user_write_of(a, c), n, n_files, h, first, k1);
            table_after(once, user_write_of(a, c), n, n_files, h, second, k2) == once
        }),
        ({
            let (n, h) = (roster(a).len(), a.beamtime.proposal.gupId is Some);
            let once = table_after(proposals, proposal_write_of(a), n, n_files, h, first, k1);
            table_after(once, proposal_write_of(a), n, n_files, h, second, k2) == once
        }),
{
    let n = roster(a).len();
    let h = a.beamtime.proposal.gupId is Some;
    let uw = user_write_of(a, c);
    let pw = proposal_write_of(a);
    lemma_table_after_run(users, uw, n, n_files, h, first, k1);
    let once = table_after(users, uw, n, n_files, h, first, k1);
    lemma_table_after_run(once, uw, n, n_files, h, second, k2);
    lemma_rewrite_changes_nothing(users, roster_writes(uw, n));
    lemma_table_after_run(proposals, pw, n, n_files, h, first, k1);
    let once_p = table_after(proposals, pw, n, n_files, h, first, k1);
    lemma_table_after_run(once_p, pw, n, n_files, h, second, k2);
    lemma_rewrite_changes_nothing(proposals, roster_writes(pw, n));
}

} // verus!
