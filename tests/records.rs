use beam_catalog::activity::{Experimenter as Scheduled, Proposal as Scheduled_Proposal};
use beam_catalog::config::Config;
use beam_catalog::database::{Beamline, Dataset, Experimenter, ExperimenterRole, Proposal, SyncRun, User, UserAccessControl, UserError};
use beam_catalog::reference::NameIndex;
use beam_catalog::synco_runs::SyncotronRun;
use beam_catalog::timestamp::Timestamp;

fn scheduled(badge: &str, email: Option<&str>) -> Scheduled {
    Scheduled {
        gupExperimenterId: 1,
        badge: badge.to_string(),
        firstName: "Ann".to_string(),
        lastName: "Lee".to_string(),
        institution: "Lab".to_string(),
        email: email.map(|e| e.to_string()),
        piFlag: Some("Y".to_string()),
    }
}

#[test]
fn user_from_experimenter_parses_badge() {
    let uac = UserAccessControl::new(3, "Visitor", "guest");
    let u = User::from_experimenter(&scheduled("1234", Some("lee@lab.org")), &uac).unwrap();
    assert_eq!(u.badge, 1234);
    assert_eq!(u.username, "lee@lab.org");
    assert_eq!(u.email, "lee@lab.org");
    assert_eq!(u.first_name, "Ann");
    assert_eq!(u.last_name, "Lee");
    assert_eq!(u.institution, "Lab");
    assert_eq!(u.user_access_control.id, 3);
    assert_eq!(u.user_access_control.level, "Visitor");
    assert_eq!(User::from_experimenter(&scheduled("-17", Some("a")), &uac).unwrap().badge, -17);
    assert_eq!(User::from_experimenter(&scheduled("+8", Some("a")), &uac).unwrap().badge, 8);
    assert_eq!(User::from_experimenter(&scheduled("2147483647", Some("a")), &uac).unwrap().badge, i32::MAX);
}

#[test]
fn user_from_experimenter_errors() {
    let uac = UserAccessControl::new(3, "Visitor", "guest");
    for bad in ["", "-", "12a", " 12", "2147483648", "0x10"] {
        assert_eq!(User::from_experimenter(&scheduled(bad, Some("a")), &uac).unwrap_err(), UserError::BadBadge);
    }
    assert_eq!(User::from_experimenter(&scheduled("x", None), &uac).unwrap_err(), UserError::BadBadge);
}

#[test]
fn user_without_email_gets_empty_email() {
    let uac = UserAccessControl::new(3, "Visitor", "guest");
    let u = User::from_experimenter(&scheduled("12", None), &uac).unwrap();
    assert_eq!(u.badge, 12);
    assert_eq!(u.username, "");
    assert_eq!(u.email, "");
    assert_eq!(u.last_name, "Lee");
}

#[test]
fn proposal_row_from_schedule() {
    let mut p = Scheduled_Proposal::default();
    assert!(Proposal::from_proposal(&p).is_none());
    p.gupId = Some(42);
    p.proposalTitle = Some("Maps".to_string());
    p.mailInFlag = Some("N".to_string());
    let row = Proposal::from_proposal(&p).unwrap();
    assert_eq!(row.id, 42);
    assert_eq!(row.title, "Maps");
    assert_eq!(row.proprietaryFlag, "");
    assert_eq!(row.mailInFlag, "N");
    assert_eq!(row.status, "Done");
}

#[test]
fn record_constructors_and_ids() {
    let d = Dataset::new(1, 2, 3, "p", Timestamp::new(4, 5));
    assert_eq!((d.get_id(), d.beamline_id, d.syncotron_run_id, d.scan_type_id), (0, 1, 2, 3));
    assert_eq!(d.path, "p");
    let l = Experimenter::new(1, 2, 3, 4);
    assert_eq!((l.datasest_id, l.user_badge, l.proposal_id, l.experiment_role_id), (1, 2, 3, 4));
    assert_eq!(ExperimenterRole { id: 6, role: "r".to_string() }.get_id(), 6);
    let t = Timestamp::new(0, 0);
    assert_eq!(SyncRun { id: 7, name: "n".to_string(), start_timestamp: t, end_timestamp: t }.get_id(), 7);
    let b = Beamline { id: 9, name: String::new(), acronym: String::new(), division: String::new(), link: String::new() };
    assert_eq!(b.get_id(), 9);
    let uac = UserAccessControl::new(1, "Staff", "s");
    assert_eq!((uac.id, uac.level.as_str(), uac.description.as_str()), (1, "Staff", "s"));
}

#[test]
fn name_index_replaces_and_misses() {
    let mut idx: NameIndex<i32> = NameIndex::new();
    assert!(idx.get("a").is_none());
    idx.insert("a".to_string(), 1);
    idx.insert("b".to_string(), 2);
    idx.insert("a".to_string(), 3);
    assert_eq!(idx.get("a"), Some(&3));
    assert_eq!(idx.get("b"), Some(&2));
    assert!(idx.get("A").is_none());
    assert!(idx.contains_key("b"));
    assert!(!idx.contains_key("c"));
}

#[test]
fn run_info_and_roles() {
    let mut c = Config::new(Vec::new(), true);
    assert_eq!((c.run_id, c.beamline_id), (-1, -1));
    assert_eq!(c.get_bealine_id(), u32::MAX);
    assert_eq!(c.init_run_info("2024-1", "2-ID-E"), (false, false));
    assert_eq!((c.run_id, c.beamline_id), (-1, -1));
    let t = Timestamp::new(0, 0);
    c.db_sync_runs.insert("2024-1".to_string(), SyncRun { id: 5, name: "2024-1".to_string(), start_timestamp: t, end_timestamp: t });
    assert_eq!(c.init_run_info("2024-1", "2-ID-E"), (true, false));
    assert_eq!((c.run_id, c.beamline_id), (5, -1));
    assert_eq!(c.get_experimenter_role_id("Y"), None);
    c.db_experimenter_roles.insert("Principal Investigator".to_string(), ExperimenterRole { id: 1, role: String::new() });
    c.db_experimenter_roles.insert("Co-Investigator".to_string(), ExperimenterRole { id: 2, role: String::new() });
    assert_eq!(c.get_experimenter_role_id("Y"), Some(1));
    assert_eq!(c.get_experimenter_role_id("N"), Some(2));
    assert_eq!(c.get_experimenter_role_id(""), Some(2));
}

#[test]
fn syncotron_run_times() {
    let run = SyncotronRun {
        runId: 1,
        runName: "2024-1".to_string(),
        startTime: "2024-01-01T00:00:00Z".to_string(),
        endTime: "2024-01-02 00:00:01.5+01:00".to_string(),
        version: 1,
    };
    let (s, e) = run.parse_times().unwrap();
    assert_eq!(s, Timestamp::new(1_704_067_200, 0));
    assert_eq!(e, Timestamp::new(1_704_067_200 + 86_400 - 3_600 + 1, 500_000_000));
    let bad = SyncotronRun { endTime: "yesterday".to_string(), ..run };
    assert!(bad.parse_times().is_none());
}
