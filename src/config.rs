use vstd::prelude::*;

use crate::activity::{first_pi_at, no_pi_named, roster, search_for_pi_activity, Activity, Experimenter};
use crate::database::{Beamline, ExperimenterRole, ScanType, SyncRun, User, UserAccessControl};
use crate::reference::NameIndex;
use crate::text::{is_yes, text_is_yes};

verus! {

/// Name of the role given to a proposal's principal investigator.
pub const STR_PI: &'static str = "Principal Investigator";

/// Name of the role given to every other experimenter of a proposal.
pub const STR_CI: &'static str = "Co-Investigator";

/// Name of the access-control level given to users created from a schedule.
pub const STR_VISITOR: &'static str = "Visitor";

/// The run id and beamline id before `init_run_info` has found them in the reference data.
pub const UNSET_ID: i32 = -1;

/// The schedule of one run and the reference data, loaded once and read-only afterwards
/// (but for the run and beamline ids, set once by `init_run_info`).
pub struct Config {
    pub activities: Vec<Activity>,
    pub db_staff: Vec<User>,
    pub db_access_control: NameIndex<UserAccessControl>,
    pub db_sync_runs: NameIndex<SyncRun>,
    pub db_beamlines: NameIndex<Beamline>,
    pub db_experimenter_roles: NameIndex<ExperimenterRole>,
    pub db_scan_types: NameIndex<ScanType>,
    pub run_id: i32,
    pub beamline_id: i32,
    pub verbose: bool,
}

/// The role id for an experimenter, by whether it is the principal investigator.
pub open spec fn role_id_for(roles: NameIndex<ExperimenterRole>, is_pi: bool) -> Option<i32> {
    match roles.lookup(if is_pi { STR_PI@ } else { STR_CI@ }) {
        Some(role) => Some(role.id),
        None => None,
    }
}

impl Config {
    /// A configuration over a decoded schedule, with empty reference data and unset
    /// run and beamline ids.
    pub fn new(activities: Vec<Activity>, verbose: bool) -> (r: Self)
        ensures
            r.activities == activities,
            r.db_staff@.len() == 0,
            forall|k: Seq<char>| r.db_access_control.lookup(k) is None,
            forall|k: Seq<char>| r.db_sync_runs.lookup(k) is None,
            forall|k: Seq<char>| r.db_beamlines.lookup(k) is None,
            forall|k: Seq<char>| r.db_experimenter_roles.lookup(k) is None,
            forall|k: Seq<char>| r.db_scan_types.lookup(k) is None,
            r.run_id == UNSET_ID,
            r.beamline_id == UNSET_ID,
            r.verbose == verbose,
    {
        Config {
            activities,
            db_staff: Vec::new(),
            db_access_control: NameIndex::new(),
            db_sync_runs: NameIndex::new(),
            db_beamlines: NameIndex::new(),
            db_experimenter_roles: NameIndex::new(),
            db_scan_types: NameIndex::new(),
            run_id: UNSET_ID,
            beamline_id: UNSET_ID,
            verbose,
        }
    }

    /// The schedule index query: see `activity::search_for_pi_activity`.
    pub fn search_for_pi_activity(&self, experimenter_lastname: &str) -> (r: (Option<&Activity>, Option<&Experimenter>))
        ensures
            match r {
                (Some(a), Some(e)) => exists|i: int, j: int|
                    first_pi_at(self.activities@, experimenter_lastname@, i, j) && *a == self.activities@[i]
                        && *e == roster(self.activities@[i])[j],
                (None, None) => no_pi_named(self.activities@, experimenter_lastname@),
                _ => false,
            },
    {
        search_for_pi_activity(&self.activities, experimenter_lastname)
    }

    pub fn get_bealine_id(&self) -> (r: u32)
        ensures
            r == self.beamline_id as u32,
    {
        self.beamline_id as u32
    }

    /// The id of the principal-investigator role when `is_pi` is `"Y"`, else that of the
    /// co-investigator role; `None` when that role is not in the reference data.
    pub fn get_experimenter_role_id(&self, is_pi: &str) -> (r: Option<i32>)
        ensures
            r == role_id_for(self.db_experimenter_roles, is_yes(is_pi@)),
    {
        let role = if text_is_yes(is_pi) {
            self.db_experimenter_roles.get(STR_PI)
        } else {
            self.db_experimenter_roles.get(STR_CI)
        };
        match role {
            Some(role) => Some(role.get_id()),
            None => None,
        }
    }

    /// Sets the run id and the beamline id from the reference data, by the run's name and
    /// the beamline's acronym. Returns whether each was found; one that is not found keeps
    /// its former id.
    pub fn init_run_info(&mut self, run_name: &str, beamline_name: &str) -> (r: (bool, bool))
        ensures
            r.0 == old(self).db_sync_runs.lookup(run_name@) is Some,
            r.1 == old(self).db_beamlines.lookup(beamline_name@) is Some,
            final(self).run_id == match old(self).db_sync_runs.lookup(run_name@) {
                Some(run) => run.id,
                None => old(self).run_id,
            },
            final(self).beamline_id == match old(self).db_beamlines.lookup(beamline_name@) {
                Some(b) => b.id,
                None => old(self).beamline_id,
            },
            final(self).activities == old(self).activities,
            final(self).db_staff == old(self).db_staff,
            final(self).db_access_control == old(self).db_access_control,
            final(self).db_sync_runs == old(self).db_sync_runs,
            final(self).db_beamlines == old(self).db_beamlines,
            final(self).db_experimenter_roles == old(self).db_experimenter_roles,
            final(self).db_scan_types == old(self).db_scan_types,
            final(self).verbose == old(self).verbose,
    {
        let run_found = match self.db_sync_runs.get(run_name) {
            Some(run) => {
                self.run_id = run.get_id();
                true
            },
            None => false,
        };
        let beamline_found = match self.db_beamlines.get(beamline_name) {
            Some(b) => {
                self.beamline_id = b.get_id();
                true
            },
            None => false,
        };
        (run_found, beamline_found)
    }
}

} // verus!
