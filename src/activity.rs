use vstd::prelude::*;

use crate::text::{is_yes, same_text, text_is_yes};

verus! {

/// One scheduled beamtime slot, as the scheduling service describes it.
#[derive(Debug, Clone, Default)]
pub struct Activity {
    pub activityId: Option<i64>,
    pub scheduleId: Option<i64>,
    pub activityName: Option<String>,
    pub startTime: Option<String>,
    pub endTime: Option<String>,
    pub duration: Option<i64>,
    pub utilization: Option<i64>,
    pub parentActivityId: Option<i64>,
    pub activityType: Option<ActivityType>,
    pub beamtime: Beamtime,
    pub experimentId: Option<i64>,
    pub station: Option<Station>,
    pub version: Option<i64>,
    pub activityComment: Option<String>,
    pub user: Option<UserType>,
    pub activityMessageConfig: Option<ActivityMessageConfig>,
    pub timeUnused: Option<i64>,
    pub displayColor: Option<i64>,
    pub clientFkId: Option<i64>,
}

#[derive(Debug, Clone, Default)]
pub struct UserType {
    pub badgeNo: Option<String>,
    pub firstName: Option<String>,
    pub lastName: Option<String>,
    pub name: Option<String>,
    pub userName: Option<String>,
    pub email: Option<String>,
}

#[derive(Debug, Clone, Default)]
pub struct ActivityType {
    pub activityTypeId: Option<i64>,
    pub activityTypeName: Option<String>,
    pub activityTypeDescription: Option<String>,
    pub systemActivityFlag: Option<i64>,
    pub version: Option<i64>,
}

#[derive(Debug, Clone, Default)]
pub struct preferredDate {
    pub preferDtSeq: Option<i64>,
    pub gupId: Option<i64>,
    pub beamtimeId: Option<i64>,
    pub dateFrom: Option<String>,
    pub dateTo: Option<String>,
}

/// The beamtime request embedded in an activity; it carries the proposal.
#[derive(Debug, Clone, Default)]
pub struct Beamtime {
    pub beamtimeId: Option<i64>,
    pub beamlineFirst: Option<Beamline>,
    pub beamlineSecond: Option<Beamline>,
    pub beamlineThird: Option<Beamline>,
    pub grantedBeamline: Option<Beamline>,
    pub scheduledBeamline1: Option<Beamline>,
    pub scheduledBeamline2: Option<Beamline>,
    pub scheduledBeamline3: Option<Beamline>,
    pub scheduledBeamline4: Option<Beamline>,
    pub proposal: Proposal,
    pub proposalStatus: ProposalStatus,
    pub schedulingPeriods: SchedulingPeriods,
    pub preferredDates: Vec<preferredDate>,
    pub requestedDate: Option<String>,
    pub actualShifts: Option<i64>,
    pub grantedShifts: Option<i64>,
    pub scheduledShifts: Option<i64>,
    pub scheduledShifts2: Option<i64>,
    pub scheduledShifts3: Option<i64>,
    pub scheduledShifts4: Option<i64>,
    pub equipment: Option<String>,
    pub rapidAccessFlag: Option<String>,
    pub anyBeamlineFlag: Option<String>,
    pub timeUnit: Option<i64>,
    pub declinedFlag: Option<String>,
}

#[derive(Debug, Clone, Default)]
pub struct Beamline {
    pub beamlineNum: Option<i64>,
    pub beamlineId: Option<String>,
    pub beamlineIdOld: Option<String>,
    pub beamlineName: Option<String>,
    pub operator: Operator,
    pub source: Source,
    pub sector: Sector,
    pub inactiveDate: Option<String>,
    pub stations: Vec<Station>,
    pub supportedTechniques: Vec<SupportedTechnique>,
}

#[derive(Debug, Clone, Default)]
pub struct Operator {
    pub operatorId: Option<i64>,
    pub operatorName: Option<String>,
    pub operatorShortName: Option<String>,
}

#[derive(Debug, Clone, Default)]
pub struct Source {
    pub sourceId: Option<i64>,
    pub sourceName: Option<String>,
}

#[derive(Debug, Clone, Default)]
pub struct Sector {
    pub sectorId: Option<i64>,
    pub sectorName: Option<String>,
    pub sectorNum: Option<i64>,
}

#[derive(Debug, Clone, Default)]
pub struct Station {
    pub stationId: Option<i64>,
    pub stationName: Option<String>,
    pub inactiveDate: Option<String>,
    pub createdDate: Option<String>,
    pub beamLineNum: Option<i64>,
}

#[derive(Debug, Clone, Default)]
pub struct SupportedTechnique {
    pub supportedTechniquesId: SupportedTechniquesId,
    pub orderColumn: Option<i64>,
    pub collaborationOnlyFlag: Option<String>,
    pub technique: Technique,
}

#[derive(Debug, Clone, Default)]
pub struct SupportedTechniquesId {
    pub techniqueId: Option<i64>,
    pub beamLineNum: Option<i64>,
}

#[derive(Debug, Clone, Default)]
pub struct Technique {
    pub techniqueId: Option<i64>,
    pub techniqueName: Option<String>,
    pub category: Option<String>,
    pub inactiveFlag: Option<String>,
    pub subCategory: Option<String>,
}

/// A research proposal and its roster of experimenters, in schedule order.
#[derive(Debug, Clone, Default)]
pub struct Proposal {
    pub gupId: Option<i32>,
    pub proposalTitle: Option<String>,
    pub proprietaryFlag: Option<String>,
    pub pupId: Option<i64>,
    pub submittedDate: Option<String>,
    pub totalShiftsRequested: Option<i64>,
    pub mailInFlag: Option<String>,
    pub proposalStatus: Option<ProposalStatus>,
    pub proposalType: Option<ProposalType>,
    pub experimenters: Vec<Experimenter>,
}

#[derive(Debug, Clone, Default)]
pub struct ProposalStatus {
    pub statusId: Option<i64>,
    pub statusDesc: Option<String>,
    pub statusType: Option<String>,
}

#[derive(Debug, Clone, Default)]
pub struct ProposalType {
    pub typeId: Option<String>,
    pub typeDescription: Option<String>,
    pub inactiveFlag: Option<String>,
    pub display: Option<String>,
}

/// A person named on a proposal. `piFlag` is `"Y"` for the principal investigator.
#[derive(Debug, Clone, Default)]
pub struct Experimenter {
    pub gupExperimenterId: i64,
    pub badge: String,
    pub firstName: String,
    pub lastName: String,
    pub institution: String,
    pub email: Option<String>,
    pub piFlag: Option<String>,
}

#[derive(Debug, Clone, Default)]
pub struct SchedulingPeriods {
    pub runStartDate: Option<String>,
    pub runEndDate: Option<String>,
    pub notifyUserDate: Option<String>,
    pub schedulingPeriods: Option<String>,
}

#[derive(Debug, Clone, Default)]
pub struct ActivityMessageConfig {
    pub activityMessageConfigId: Option<i64>,
    pub hold: Option<i64>,
    pub enableActivityScheduled: Option<i64>,
    pub activityScheduledStatus: Option<i64>,
    pub enableEsafReminder: Option<i64>,
    pub esafReminderStatus: Option<i64>,
    pub enableExpReminder: Option<i64>,
    pub expReminderStatus: Option<i64>,
    pub enablePubReminder: Option<i64>,
    pub pubReminderStatus: Option<i64>,
    pub customText: Option<String>,
    pub fromEmailAddr: Option<String>,
    pub version: Option<i64>,
    pub enableEndExpReminder: Option<i64>,
    pub expEndReminderStatus: Option<i64>,
}

/// The flag is present and reads `"Y"`.
pub open spec fn flag_is_yes(flag: Option<String>) -> bool {
    match flag {
        Some(f) => is_yes(f@),
        None => false,
    }
}

/// The experimenters of an activity's proposal.
pub open spec fn roster(a: Activity) -> Seq<Experimenter> {
    a.beamtime.proposal.experimenters@
}

/// `e` is a principal investigator whose last name is `name`.
pub open spec fn is_pi_named(e: Experimenter, name: Seq<char>) -> bool {
    e.lastName@ == name && flag_is_yes(e.piFlag)
}

/// Experimenter `j` of activity `i` is a principal investigator named `name`.
pub open spec fn pi_at(acts: Seq<Activity>, name: Seq<char>, i: int, j: int) -> bool {
    0 <= i < acts.len() && 0 <= j < roster(acts[i]).len() && is_pi_named(roster(acts[i])[j], name)
}

/// Position `(i2, j2)` comes before `(i, j)` in schedule order.
pub open spec fn comes_before(i2: int, j2: int, i: int, j: int) -> bool {
    i2 < i || (i2 == i && j2 < j)
}

/// `(i, j)` is the first principal investigator named `name`, in schedule order.
pub open spec fn first_pi_at(acts: Seq<Activity>, name: Seq<char>, i: int, j: int) -> bool {
    &&& pi_at(acts, name, i, j)
    &&& forall|i2: int, j2: int|
        #![trigger pi_at(acts, name, i2, j2)]
        comes_before(i2, j2, i, j) ==> !pi_at(acts, name, i2, j2)
}

/// No experimenter of any activity is a principal investigator named `name`.
pub open spec fn no_pi_named(acts: Seq<Activity>, name: Seq<char>) -> bool {
    forall|i: int, j: int| #![trigger pi_at(acts, name, i, j)] !pi_at(acts, name, i, j)
}

/// When the schedule holds exactly one principal investigator named `name`, at experimenter
/// `j` of activity `i`, the search finds exactly that pair (see `find_pi_position`).
pub proof fn lemma_sole_pi_is_found(acts: Seq<Activity>, name: Seq<char>, i: int, j: int)
    requires
        pi_at(acts, name, i, j),
        forall|i2: int, j2: int| #[trigger] pi_at(acts, name, i2, j2) ==> i2 == i && j2 == j,
    ensures
        first_pi_at(acts, name, i, j),
        !no_pi_named(acts, name),
{
}

impl Experimenter {
    /// Whether this experimenter is flagged principal investigator.
    pub fn is_pi(&self) -> (r: bool)
        ensures
            r == flag_is_yes(self.piFlag),
    {
        match &self.piFlag {
            Some(f) => text_is_yes(f.as_str()),
            None => false,
        }
    }
}

/// The position (activity, experimenter) of the first principal investigator whose last
/// name is `experimenter_lastname`, or `None` when there is none.
pub fn find_pi_position(activities: &Vec<Activity>, experimenter_lastname: &str) -> (r: Option<(usize, usize)>)
    ensures
        match r {
            Some((i, j)) => first_pi_at(activities@, experimenter_lastname@, i as int, j as int),
            None => no_pi_named(activities@, experimenter_lastname@),
        },
{
    let ghost name = experimenter_lastname@;
    let mut i: usize = 0;
    while i < activities.len()
        invariant
            i <= activities@.len(),
            name == experimenter_lastname@,
            forall|i2: int, j2: int|
                #![trigger pi_at(activities@, name, i2, j2)]
                i2 < i ==> !pi_at(activities@, name, i2, j2),
        decreases activities@.len() - i,
    {
        let exps = &activities[i].beamtime.proposal.experimenters;
        let mut j: usize = 0;
        while j < exps.len()
            invariant
                i < activities@.len(),
                name == experimenter_lastname@,
                exps@ == roster(activities@[i as int]),
                j <= exps@.len(),
                forall|i2: int, j2: int|
                    #![trigger pi_at(activities@, name, i2, j2)]
                    comes_before(i2, j2, i as int, j as int) ==> !pi_at(activities@, name, i2, j2),
            decreases exps@.len() - j,
        {
            let e = &exps[j];
            assert(*e == roster(activities@[i as int])[j as int]);
            let flagged = e.is_pi();
            let named = same_text(e.lastName.as_str(), experimenter_lastname);
            if flagged && named {
                assert(pi_at(activities@, name, i as int, j as int));
                return Some((i, j));
            }
            assert(!pi_at(activities@, name, i as int, j as int));
            j = j + 1;
        }
        i = i + 1;
    }
    None
}

/// The first activity, in schedule order, whose proposal names a principal investigator with
/// last name `experimenter_lastname`, together with that experimenter; both `None` when no
/// such experimenter exists. Experimenters without the flag are never returned.
pub fn search_for_pi_activity<'a>(activities: &'a Vec<Activity>, experimenter_lastname: &str) -> (r: (Option<&'a Activity>, Option<&'a Experimenter>))
    ensures
        match r {
            (Some(a), Some(e)) => exists|i: int, j: int|
                first_pi_at(activities@, experimenter_lastname@, i, j) && *a == activities@[i]
                    && *e == roster(activities@[i])[j],
            (None, None) => no_pi_named(activities@, experimenter_lastname@),
            _ => false,
        },
{
    match find_pi_position(activities, experimenter_lastname) {
        Some((i, j)) => {
            let a = &activities[i];
            (Some(a), Some(&a.beamtime.proposal.experimenters[j]))
        },
        None => (None, None),
    }
}

} // verus!
