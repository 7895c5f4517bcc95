use vstd::prelude::*;

use crate::activity;
use crate::text::{parse_i32, parsed_i32};
use crate::timestamp::Timestamp;

verus! {

/// An access-control level that a user row refers to.
#[derive(Debug, Clone)]
pub struct UserAccessControl {
    pub id: i32,
    pub level: String,
    pub description: String,
}

impl UserAccessControl {
    pub fn new(my_id: i32, user_access_control: &str, descr: &str) -> (r: Self)
        ensures
            r.id == my_id,
            r.level@ == user_access_control@,
            r.description@ == descr@,
    {
        UserAccessControl {
            id: my_id,
            level: user_access_control.to_owned(),
            description: descr.to_owned(),
        }
    }

    /// A copy with the same fields.
    pub fn duplicate(&self) -> (r: Self)
        ensures
            r == *self,
    {
        UserAccessControl { id: self.id, level: self.level.clone(), description: self.description.clone() }
    }
}

/// Why an experimenter cannot become a user row.
#[derive(Debug, Clone, Copy, PartialEq, Eq, Structural)]
pub enum UserError {
    /// The badge is not a decimal `i32`.
    BadBadge,
    /// The access-control level for visitors is not in the reference data.
    UnknownAccessLevel,
}

/// A row of the users table, keyed by badge.
#[derive(Debug, Clone)]
pub struct User {
    pub badge: i32,
    pub username: String,
    pub first_name: String,
    pub last_name: String,
    pub institution: String,
    pub email: String,
    pub user_access_control: UserAccessControl,
}

/// `u` is the user row for experimenter `e` at access level `uac`.
pub open spec fn user_from(u: User, e: activity::Experimenter, uac: UserAccessControl) -> bool {
    &&& parsed_i32(e.badge@) == Some(u.badge)
    &&& u.username@ == text_or_empty(e.email)
    &&& u.email@ == text_or_empty(e.email)
    &&& u.first_name@ == e.firstName@
    &&& u.last_name@ == e.lastName@
    &&& u.institution@ == e.institution@
    &&& u.user_access_control == uac
}

/// What turning experimenter `e` into a user row gives: the row, or an error when the badge
/// does not parse.
pub open spec fn user_result_ok(r: Result<User, UserError>, e: activity::Experimenter, uac: UserAccessControl) -> bool {
    if parsed_i32(e.badge@) is None {
        r == Err::<User, UserError>(UserError::BadBadge)
    } else {
        r matches Ok(u) && user_from(u, e, uac)
    }
}

impl User {
    /// The user row for an experimenter; its email is also its user name, and an absent
    /// email is stored as empty text.
    pub fn from_experimenter(experimenter: &activity::Experimenter, uac: &UserAccessControl) -> (r: Result<Self, UserError>)
        ensures
            user_result_ok(r, *experimenter, *uac),
    {
        let badge = match parse_i32(experimenter.badge.as_str()) {
            Some(b) => b,
            None => return Err(UserError::BadBadge),
        };
        Ok(User {
            badge,
            username: text_or_empty_of(&experimenter.email),
            first_name: experimenter.firstName.clone(),
            last_name: experimenter.lastName.clone(),
            institution: experimenter.institution.clone(),
            email: text_or_empty_of(&experimenter.email),
            user_access_control: uac.duplicate(),
        })
    }
}

/// A row of the proposals table, keyed by the proposal id.
#[derive(Debug, Clone)]
pub struct Proposal {
    pub id: i32,
    pub title: String,
    pub proprietaryFlag: String,
    pub mailInFlag: String,
    pub status: String,
}

/// The text of an optional field, empty when it is absent.
pub open spec fn text_or_empty(o: Option<String>) -> Seq<char> {
    match o {
        Some(t) => t@,
        None => Seq::empty(),
    }
}

/// `r` is the proposal row for the scheduled proposal `p`.
pub open spec fn proposal_from(r: Proposal, p: activity::Proposal) -> bool {
    &&& p.gupId == Some(r.id)
    &&& r.title@ == text_or_empty(p.proposalTitle)
    &&& r.proprietaryFlag@ == text_or_empty(p.proprietaryFlag)
    &&& r.mailInFlag@ == text_or_empty(p.mailInFlag)
    &&& r.status@ == "Done"@
}

fn text_or_empty_of(o: &Option<String>) -> (r: String)
    ensures
        r@ == text_or_empty(*o),
{
    match o {
        Some(t) => t.clone(),
        None => String::new(),
    }
}

impl Proposal {
    /// The proposal row for a scheduled proposal; `None` when the proposal has no id.
    /// Absent title and flags are stored as empty text.
    pub fn from_proposal(proposal: &activity::Proposal) -> (r: Option<Self>)
        ensures
            match r {
                Some(row) => proposal_from(row, *proposal),
                None => proposal.gupId is None,
            },
    {
        match proposal.gupId {
            Some(id) => Some(Proposal {
                id,
                title: text_or_empty_of(&proposal.proposalTitle),
                proprietaryFlag: text_or_empty_of(&proposal.proprietaryFlag),
                mailInFlag: text_or_empty_of(&proposal.mailInFlag),
                status: "Done".to_owned(),
            }),
            None => None,
        }
    }
}

#[derive(Debug, Clone)]
pub struct DataStore {
    pub id: i32,
    pub root: String,
    pub path: String,
}

/// A beamline of the reference data, looked up by its acronym.
#[derive(Debug, Clone)]
pub struct Beamline {
    pub id: i32,
    pub name: String,
    pub acronym: String,
    pub division: String,
    pub link: String,
}

impl Beamline {
    pub fn get_id(&self) -> (r: i32)
        ensures
            r == self.id,
    {
        self.id
    }
}

/// A scan type of the reference data, looked up by its name.
#[derive(Debug, Clone)]
pub struct ScanType {
    pub id: i32,
    pub name: String,
    pub description: String,
}

/// A synchrotron run of the reference data, looked up by its name.
#[derive(Debug, Clone)]
pub struct SyncRun {
    pub id: i32,
    pub name: String,
    pub start_timestamp: Timestamp,
    pub end_timestamp: Timestamp,
}

impl SyncRun {
    pub fn get_id(&self) -> (r: i32)
        ensures
            r == self.id,
    {
        self.id
    }
}

/// A row of the datasets table: one raw data file. Its id is generated by the store.
#[derive(Debug, Clone)]
pub struct Dataset {
    pub id: i32,
    pub beamline_id: i32,
    pub syncotron_run_id: i32,
    pub scan_type_id: i32,
    pub path: String,
    pub acquisition_timestamp: Timestamp,
}

impl Dataset {
    pub fn new(beamline_id: i32, syncotron_run_id: i32, scan_type_id: i32, ppath: &str, acquisition_timestamp: Timestamp) -> (r: Self)
        ensures
            r.id == 0,
            r.beamline_id == beamline_id,
            r.syncotron_run_id == syncotron_run_id,
            r.scan_type_id == scan_type_id,
            r.path@ == ppath@,
            r.acquisition_timestamp == acquisition_timestamp,
    {
        Dataset {
            id: 0,
            beamline_id,
            syncotron_run_id,
            scan_type_id,
            path: ppath.to_owned(),
            acquisition_timestamp,
        }
    }

    pub fn get_id(&self) -> (r: i32)
        ensures
            r == self.id,
    {
        self.id
    }
}

/// An experimenter role of the reference data, looked up by its name.
#[derive(Debug, Clone)]
pub struct ExperimenterRole {
    pub id: i32,
    pub role: String,
}

impl ExperimenterRole {
    pub fn get_id(&self) -> (r: i32)
        ensures
            r == self.id,
    {
        self.id
    }
}

/// A row of the experimenters table: links a dataset to a user, a proposal and a role.
#[derive(Debug, Clone, Copy, PartialEq, Eq, Structural)]
pub struct Experimenter {
    pub datasest_id: i32,
    pub user_badge: i32,
    pub proposal_id: i32,
    pub experiment_role_id: i32,
}

impl Experimenter {
    pub fn new(dataset_id: i32, user_badge: i32, proposal_id: i32, experiment_role_id: i32) -> (r: Self)
        ensures
            r == (Experimenter { datasest_id: dataset_id, user_badge, proposal_id, experiment_role_id }),
    {
        Experimenter { datasest_id: dataset_id, user_badge, proposal_id, experiment_role_id }
    }
}

} // verus!
