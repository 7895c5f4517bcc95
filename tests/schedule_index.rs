use beam_catalog::activity::{find_pi_position, search_for_pi_activity, Activity, Experimenter};
use beam_catalog::config::Config;

fn experimenter(badge: &str, last: &str, pi: Option<&str>) -> Experimenter {
    Experimenter {
        gupExperimenterId: 1,
        badge: badge.to_string(),
        firstName: "First".to_string(),
        lastName: last.to_string(),
        institution: "Lab".to_string(),
        email: Some(format!("{}@lab.org", badge)),
        piFlag: pi.map(|p| p.to_string()),
    }
}

fn activity(id: i64, gup: i32, exps: Vec<Experimenter>) -> Activity {
    let mut a = Activity::default();
    a.activityId = Some(id);
    a.beamtime.proposal.gupId = Some(gup);
    a.beamtime.proposal.experimenters = exps;
    a
}

#[test]
fn finds_the_flagged_experimenter() {
    let acts = vec![activity(1, 42, vec![experimenter("1234", "Smith", Some("Y"))])];
    let (a, e) = search_for_pi_activity(&acts, "Smith");
    assert_eq!(a.unwrap().activityId, Some(1));
    assert_eq!(e.unwrap().badge, "1234");
}

#[test]
fn never_returns_an_unflagged_namesake() {
    let acts = vec![activity(
        1,
        42,
        vec![experimenter("1", "Smith", None), experimenter("2", "Smith", Some("N"))],
    )];
    let (a, e) = search_for_pi_activity(&acts, "Smith");
    assert!(a.is_none());
    assert!(e.is_none());
}

#[test]
fn co_investigator_with_same_name_is_skipped_for_the_pi() {
    let acts = vec![
        activity(1, 41, vec![experimenter("1", "Smith", Some("N"))]),
        activity(2, 42, vec![experimenter("9", "Jones", Some("Y")), experimenter("2", "Smith", Some("Y"))]),
    ];
    assert_eq!(find_pi_position(&acts, "Smith"), Some((1, 1)));
    let (a, e) = search_for_pi_activity(&acts, "Smith");
    assert_eq!(a.unwrap().activityId, Some(2));
    assert_eq!(e.unwrap().badge, "2");
}

#[test]
fn first_match_in_schedule_order_wins() {
    let acts = vec![
        activity(1, 41, vec![experimenter("1", "Smith", Some("Y"))]),
        activity(2, 42, vec![experimenter("2", "Smith", Some("Y"))]),
    ];
    let (a, e) = search_for_pi_activity(&acts, "Smith");
    assert_eq!(a.unwrap().activityId, Some(1));
    assert_eq!(e.unwrap().badge, "1");
}

#[test]
fn match_is_exact_and_case_sensitive() {
    let acts = vec![activity(1, 42, vec![experimenter("1", "Smith", Some("Y"))])];
    assert_eq!(find_pi_position(&acts, "smith"), None);
    assert_eq!(find_pi_position(&acts, "Smit"), None);
    assert_eq!(find_pi_position(&acts, "Smith "), None);
}

#[test]
fn empty_schedule_finds_nothing() {
    let acts: Vec<Activity> = Vec::new();
    assert_eq!(find_pi_position(&acts, "Lee"), None);
}

#[test]
fn lee_without_flag_is_not_found() {
    let config = Config::new(vec![activity(1, 42, vec![experimenter("1234", "Lee", None)])], false);
    let (a, e) = config.search_for_pi_activity("Lee");
    assert!(a.is_none() && e.is_none());
}

#[test]
fn pi_flag_reads_only_y() {
    assert!(experimenter("1", "A", Some("Y")).is_pi());
    assert!(!experimenter("1", "A", Some("y")).is_pi());
    assert!(!experimenter("1", "A", Some("YES")).is_pi());
    assert!(!experimenter("1", "A", None).is_pi());
}
