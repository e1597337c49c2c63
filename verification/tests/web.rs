use lerobot_servo_adjust::api::PatchJoint;
use lerobot_servo_adjust::model::{Joint, Profile};
use lerobot_servo_adjust::names::NameMap;
use lerobot_servo_adjust::store::{Kind, Store, StoreError};
use lerobot_servo_adjust::text::decimal_text;
use lerobot_servo_adjust::web::{
    after_arm_write, after_local_delete, after_local_put, after_remote_delete, after_remote_patch,
    after_remote_put, api_url, arm_url, buttons, hotspot_label, hotspot_place, hotspots, joint_with_id,
    label_prefix, profile_url, selection, store_kind, update_arm, update_profile, view_arm,
    ArmForm, ArmReply, ArmUpdate, Hotspot, ProfilePage, ProfileUpdate, PutFailure, Remote, Reply, JOINTS,
};

fn joint(id: i32, range_min: i32, range_max: i32) -> Joint {
    Joint { id, drive_mode: 0, homing_offset: 0, range_min, range_max }
}

fn profile(joints: &[(&str, Joint)]) -> Profile {
    let mut map = NameMap::new();
    for (name, j) in joints {
        map.insert(name.to_string(), *j);
    }
    Profile(map)
}

fn arm() -> Profile {
    profile(&[
        ("shoulder_pan", Joint { id: 1, drive_mode: 0, homing_offset: 10, range_min: 100, range_max: 200 }),
        ("shoulder_lift", Joint { id: 2, drive_mode: 1, homing_offset: -20, range_min: 0, range_max: 4095 }),
        ("gripper", Joint { id: 6, drive_mode: 0, homing_offset: 0, range_min: 5, range_max: 50 }),
    ])
}

fn strings(names: &[&str]) -> Vec<String> {
    names.iter().map(|n| n.to_string()).collect()
}

fn page(kind: &str, name: &str, json: &str, error: Option<&str>) -> ProfilePage {
    ProfilePage {
        title: "Profile".to_string(),
        kind: kind.to_string(),
        name: name.to_string(),
        json: json.to_string(),
        error: error.map(|e| e.to_string()),
    }
}

#[test]
fn decimal_of_small_numbers() {
    for n in 0..=255u8 {
        assert_eq!(decimal_text(n), n.to_string());
    }
}

#[test]
fn kinds_of_the_pages() {
    assert_eq!(Kind::from_name("robots"), Some(Kind::Robots));
    assert_eq!(Kind::from_name("teleoperators"), Some(Kind::Teleoperators));
    assert_eq!(Kind::from_name("leaders"), None);
    assert_eq!(Kind::from_name(""), None);
    assert_eq!(store_kind("robots"), Kind::Robots);
    assert_eq!(store_kind("teleoperators"), Kind::Teleoperators);
    assert_eq!(store_kind("anything"), Kind::Robots);
    assert_eq!(label_prefix("teleoperators"), "L");
    assert_eq!(label_prefix("robots"), "F");
    assert_eq!(label_prefix("anything"), "F");
}

#[test]
fn selection_is_a_joint_of_the_picture() {
    assert_eq!(JOINTS, 6);
    assert_eq!(selection(None), None);
    assert_eq!(selection(Some(0)), None);
    assert_eq!(selection(Some(7)), None);
    assert_eq!(selection(Some(255)), None);
    for n in 1..=6u8 {
        assert_eq!(selection(Some(n)), Some(n));
    }
}

#[test]
fn places_of_the_joints() {
    let robots = [(86, 79), (68, 77), (25, 85), (22, 70), (18, 56), (35, 49)];
    let others = [(83, 36), (58, 31), (20, 45), (19, 28), (15, 16), (30, 9)];
    for n in 1..=6u8 {
        assert_eq!(hotspot_place("robots", n), robots[n as usize - 1]);
        assert_eq!(hotspot_place("teleoperators", n), others[n as usize - 1]);
        assert_eq!(hotspot_place("anything", n), others[n as usize - 1]);
    }
}

#[test]
fn first_joint_with_an_id() {
    let p = profile(&[("a", joint(3, 0, 1)), ("b", joint(5, 0, 1)), ("c", joint(3, 0, 1))]);
    assert_eq!(joint_with_id(&p, 3), Some(0));
    assert_eq!(joint_with_id(&p, 5), Some(1));
    assert_eq!(joint_with_id(&p, 4), None);
    assert_eq!(joint_with_id(&Profile(NameMap::new()), 1), None);
}

#[test]
fn labels_of_the_joints() {
    let p = profile(&[("a", joint(3, 0, 1)), ("b", joint(5, 0, 1)), ("c", joint(3, 0, 1))]);
    assert_eq!(hotspot_label(Some(&p), "robots", 3), "c");
    assert_eq!(hotspot_label(Some(&p), "robots", 5), "b");
    assert_eq!(hotspot_label(Some(&p), "robots", 4), "F4");
    assert_eq!(hotspot_label(Some(&p), "teleoperators", 4), "L4");
    assert_eq!(hotspot_label(None, "teleoperators", 6), "L6");
    assert_eq!(hotspot_label(None, "robots", 1), "F1");
}

#[test]
fn hotspots_of_an_arm() {
    let spots = hotspots("robots", Some(2), Some(&arm()));
    assert_eq!(
        spots,
        vec![
            Hotspot { n: 1, top: 86, left: 79, selected: false, label: "shoulder_pan".to_string() },
            Hotspot { n: 2, top: 68, left: 77, selected: true, label: "shoulder_lift".to_string() },
            Hotspot { n: 3, top: 25, left: 85, selected: false, label: "F3".to_string() },
            Hotspot { n: 4, top: 22, left: 70, selected: false, label: "F4".to_string() },
            Hotspot { n: 5, top: 18, left: 56, selected: false, label: "F5".to_string() },
            Hotspot { n: 6, top: 35, left: 49, selected: false, label: "gripper".to_string() },
        ]
    );
    let spots = hotspots("teleoperators", None, None);
    assert_eq!(spots.len(), 6);
    assert_eq!(spots[0], Hotspot { n: 1, top: 83, left: 36, selected: false, label: "L1".to_string() });
    assert_eq!(spots[5], Hotspot { n: 6, top: 30, left: 9, selected: false, label: "L6".to_string() });
}

#[test]
fn buttons_mark_the_profile_that_is_shown() {
    let names = strings(&["a", "b"]);
    assert_eq!(buttons(&names, true, "b"), vec![("a".to_string(), false), ("b".to_string(), true)]);
    assert_eq!(buttons(&names, false, "b"), vec![("a".to_string(), false), ("b".to_string(), false)]);
    assert_eq!(buttons(&names, true, "c"), vec![("a".to_string(), false), ("b".to_string(), false)]);
    assert_eq!(buttons(&Vec::new(), true, "c"), Vec::new());
}

#[test]
fn addresses() {
    assert_eq!(api_url("http://0.0.0.0:3000", "robots", "so101"), "http://0.0.0.0:3000/api/profiles/robots/so101");
    assert_eq!(profile_url("teleoperators", "leader"), "/profiles/teleoperators/leader");
    assert_eq!(arm_url("robots", "so101", 3), "/arm/robots/so101?sel=3");
    assert_eq!(arm_url("robots", "so101", 250), "/arm/robots/so101?sel=250");
}

#[test]
fn arm_page_with_a_joint_selected() {
    let robots = strings(&["so101", "so102"]);
    let leaders = strings(&["l1"]);
    let page = view_arm("robots", "so101", Some(2), &robots, &leaders, &Ok(arm()), true);
    assert_eq!(page.title, "Arm - robots / so101");
    assert_eq!(page.kind, "robots");
    assert_eq!(page.name, "so101");
    assert_eq!(page.label_prefix, "F");
    assert_eq!(page.selected, Some(2));
    assert!(page.has_selection);
    assert_eq!(page.selected_n, 2);
    assert_eq!(page.joint_name, Some("shoulder_lift".to_string()));
    assert!(page.has_joint);
    assert_eq!(page.joint_label, "shoulder_lift");
    assert_eq!(
        (page.id_v, page.drive_mode_v, page.homing_offset_v, page.range_min_v, page.range_max_v),
        (2, 1, -20, 0, 4095)
    );
    assert_eq!(page.error, None);
    assert_eq!(page.message, None);
    assert_eq!(page.hotspots, hotspots("robots", Some(2), Some(&arm())));
    assert_eq!(page.robots_btns, vec![("so101".to_string(), true), ("so102".to_string(), false)]);
    assert_eq!(page.leaders_btns, vec![("l1".to_string(), false)]);
    assert!(page.read_only);
}

#[test]
fn arm_page_without_a_selection() {
    let page = view_arm("teleoperators", "l1", Some(9), &strings(&["l1"]), &strings(&["l1"]), &Ok(arm()), false);
    assert_eq!(page.title, "Arm - teleoperators / l1");
    assert_eq!(page.label_prefix, "L");
    assert_eq!(page.selected, None);
    assert!(!page.has_selection);
    assert_eq!(page.selected_n, 0);
    assert_eq!(page.joint_name, None);
    assert!(!page.has_joint);
    assert_eq!(page.joint_label, "");
    assert_eq!(page.error, None);
    assert_eq!(page.robots_btns, vec![("l1".to_string(), false)]);
    assert_eq!(page.leaders_btns, vec![("l1".to_string(), true)]);
    assert!(!page.read_only);
    assert_eq!(page.hotspots[0].label, "shoulder_pan");
}

#[test]
fn arm_page_where_the_joint_or_the_profile_is_missing() {
    let none = Vec::new();
    let page = view_arm("robots", "so101", Some(4), &none, &none, &Ok(arm()), false);
    assert_eq!(page.error, Some("joint with id=4 not found".to_string()));
    assert!(!page.has_joint);
    assert_eq!(page.selected_n, 4);
    let gone = Err(StoreError::NotFound("robots:so101".to_string()));
    let page = view_arm("robots", "so101", Some(4), &none, &none, &gone, false);
    assert_eq!(page.error, Some("not found: robots:so101".to_string()));
    assert_eq!(page.hotspots[3].label, "F4");
    let page = view_arm("robots", "so101", None, &none, &none, &gone, false);
    assert_eq!(page.error, None);
}

#[test]
fn profile_pages() {
    assert_eq!(ProfilePage::invalid_kind("cats", "p"), page("cats", "p", "", Some("invalid kind")));
    assert_eq!(ProfilePage::of_read("robots", "p", Ok("{}".to_string())), page("robots", "p", "{}", None));
    assert_eq!(
        ProfilePage::of_read("robots", "p", Err(StoreError::Json("eof".to_string()))),
        page("robots", "p", "", Some("json error: eof"))
    );
    assert_eq!(
        ProfilePage::new("robots", "p", "x".to_string(), Some("y".to_string())),
        page("robots", "p", "x", Some("y"))
    );
}

#[test]
fn form_of_a_profile_page() {
    let json = Some("{}".to_string());
    assert_eq!(
        update_profile(None, "cats", "p", Some("delete"), json.clone()),
        ProfileUpdate::Reject(page("cats", "p", "", Some("invalid kind")))
    );
    assert_eq!(
        update_profile(None, "robots", "p", Some("delete"), json.clone()),
        ProfileUpdate::LocalDelete { kind: Kind::Robots }
    );
    assert_eq!(
        update_profile(Some("http://h:1"), "robots", "p", Some("delete"), None),
        ProfileUpdate::RemoteDelete { url: "http://h:1/api/profiles/robots/p".to_string() }
    );
    assert_eq!(
        update_profile(None, "teleoperators", "p", Some("save"), json.clone()),
        ProfileUpdate::LocalPut { kind: Kind::Teleoperators, json: "{}".to_string() }
    );
    assert_eq!(
        update_profile(Some("http://h:1"), "teleoperators", "p", None, json.clone()),
        ProfileUpdate::RemotePut {
            url: "http://h:1/api/profiles/teleoperators/p".to_string(),
            json: "{}".to_string(),
        }
    );
    assert_eq!(
        update_profile(Some("http://h:1"), "robots", "p", None, None),
        ProfileUpdate::Reject(page("robots", "p", "", Some("missing json")))
    );
    assert_eq!(
        update_profile(None, "robots", "p", Some("Delete"), None),
        ProfileUpdate::Reject(page("robots", "p", "", Some("missing json")))
    );
}

#[test]
fn answers_of_a_profile_page() {
    assert_eq!(after_remote_delete("robots", "p", Remote::Done), Reply::Redirect("/".to_string()));
    assert_eq!(
        after_remote_delete("robots", "p", Remote::Refused("404 Not Found".to_string())),
        Reply::Page(page("robots", "p", "", Some("delete failed: 404 Not Found")))
    );
    assert_eq!(
        after_remote_delete("robots", "p", Remote::Failed("refused".to_string())),
        Reply::Page(page("robots", "p", "", Some("request error: refused")))
    );
    assert_eq!(after_local_delete("robots", "p", Ok(())), Reply::Redirect("/".to_string()));
    assert_eq!(
        after_local_delete("robots", "p", Err(StoreError::NotFound("robots:p".to_string()))),
        Reply::Page(page("robots", "p", "", Some("not found: robots:p")))
    );
    assert_eq!(
        after_remote_put("robots", "p", "{}".to_string(), Remote::Done),
        Reply::Redirect("/profiles/robots/p".to_string())
    );
    assert_eq!(
        after_remote_put("robots", "p", "{}".to_string(), Remote::Refused("400 Bad Request".to_string())),
        Reply::Page(page("robots", "p", "{}", Some("update failed: 400 Bad Request")))
    );
    assert_eq!(
        after_remote_put("robots", "p", "{}".to_string(), Remote::Failed("timeout".to_string())),
        Reply::Page(page("robots", "p", "{}", Some("request error: timeout")))
    );
    assert_eq!(
        after_local_put("robots", "p", "{}".to_string(), Ok(())),
        Reply::Redirect("/profiles/robots/p".to_string())
    );
    assert_eq!(
        after_local_put("robots", "p", "{".to_string(), Err(PutFailure::Parse("eof".to_string()))),
        Reply::Page(page("robots", "p", "{", Some("invalid json: eof")))
    );
    assert_eq!(
        after_local_put(
            "robots",
            "p",
            "{}".to_string(),
            Err(PutFailure::Store(StoreError::Io("disk full".to_string())))
        ),
        Reply::Page(page("robots", "p", "{}", Some("io error: disk full")))
    );
}

const FORM: ArmForm = ArmForm { id: 2, drive_mode: 3, homing_offset: 4, range_min: 5, range_max: 60 };

#[test]
fn form_of_an_arm_page_goes_to_the_api() {
    let store = Store::new("calib".to_string());
    let update = update_arm(&store, Some("http://h:1"), "robots", "so101", Ok(arm()), &FORM, false);
    assert_eq!(
        update,
        ArmUpdate::Remote {
            url: "http://h:1/api/profiles/robots/so101".to_string(),
            joint: "shoulder_lift".to_string(),
            patch: PatchJoint {
                id: Some(2),
                drive_mode: Some(3),
                homing_offset: Some(4),
                range_min: Some(5),
                range_max: Some(60),
            },
        }
    );
    assert_eq!(FORM.to_patch().apply(joint(9, 9, 9)), FORM.to_joint());
}

#[test]
fn form_of_an_arm_page_goes_to_the_store() {
    let store = Store::new("calib".to_string());
    match update_arm(&store, None, "teleoperators", "l1", Ok(arm()), &FORM, false) {
        ArmUpdate::Write { joint, profile, plan } => {
            assert_eq!(joint, "shoulder_lift");
            assert_eq!(
                profile.0.get("shoulder_lift"),
                Some(&Joint { id: 2, drive_mode: 3, homing_offset: 4, range_min: 5, range_max: 60 })
            );
            assert_eq!(profile.0.get("gripper"), arm().0.get("gripper"));
            assert_eq!(profile.0.len(), 3);
            assert!(plan.backup);
            assert_eq!(plan.path, store.profile_path(Kind::Teleoperators, "l1"));
        }
        other => panic!("{:?}", other),
    }
    match update_arm(&store, None, "anything", "l1", Ok(arm()), &FORM, false) {
        ArmUpdate::Write { plan, .. } => assert_eq!(plan.path, store.profile_path(Kind::Robots, "l1")),
        other => panic!("{:?}", other),
    }
}

#[test]
fn form_of_an_arm_page_is_refused() {
    let store = Store::new("calib".to_string());
    let gone = Err(StoreError::NotFound("robots:so101".to_string()));
    match update_arm(&store, None, "robots", "so101", gone, &FORM, true) {
        ArmUpdate::Reject(page) => {
            assert_eq!(page.title, "Arm");
            assert_eq!(page.error, Some("not found: robots:so101".to_string()));
            assert_eq!(page.selected, None);
            assert!(!page.has_joint);
            assert!(page.hotspots.is_empty());
            assert!(page.read_only);
        }
        other => panic!("{:?}", other),
    }
    let form = ArmForm { id: 4, ..FORM };
    for base in [None, Some("http://h:1")] {
        match update_arm(&store, base, "robots", "so101", Ok(arm()), &form, false) {
            ArmUpdate::Reject(page) => {
                assert_eq!(page.error, Some("invalid id".to_string()));
                assert_eq!(page.label_prefix, "");
            }
            other => panic!("{:?}", other),
        }
    }
    let form = ArmForm { range_min: 60, ..FORM };
    match update_arm(&store, None, "robots", "so101", Ok(arm()), &form, false) {
        ArmUpdate::Reject(page) => {
            assert_eq!(
                page.error,
                Some("validation error: joint `shoulder_lift` invalid: range_min must be < range_max".to_string())
            );
            assert_eq!(page.selected, Some(2));
            assert!(page.has_selection);
            assert_eq!(page.selected_n, 2);
            assert_eq!(page.joint_name, Some("shoulder_lift".to_string()));
            assert_eq!(page.joint_label, "shoulder_lift");
            assert!(page.has_joint);
            assert_eq!(
                (page.id_v, page.drive_mode_v, page.homing_offset_v, page.range_min_v, page.range_max_v),
                (2, 3, 4, 60, 60)
            );
        }
        other => panic!("{:?}", other),
    }
}

#[test]
fn answers_of_an_arm_page() {
    let to = ArmReply::Redirect("/arm/robots/so101?sel=2".to_string());
    assert_eq!(after_remote_patch("robots", "so101", "j", &FORM, Remote::Done, false), to);
    assert_eq!(after_arm_write("robots", "so101", "j", &FORM, Ok(()), false), to);
    match after_remote_patch("robots", "so101", "j", &FORM, Remote::Refused("400 Bad Request".to_string()), false) {
        ArmReply::Page(page) => {
            assert_eq!(page.error, Some("update failed: 400 Bad Request".to_string()));
            assert_eq!(page.joint_name, Some("j".to_string()));
            assert_eq!(page.range_max_v, 60);
        }
        other => panic!("{:?}", other),
    }
    match after_remote_patch("robots", "so101", "j", &FORM, Remote::Failed("timeout".to_string()), false) {
        ArmReply::Page(page) => assert_eq!(page.error, Some("request error: timeout".to_string())),
        other => panic!("{:?}", other),
    }
    match after_arm_write("robots", "so101", "j", &FORM, Err(StoreError::Io("disk full".to_string())), true) {
        ArmReply::Page(page) => {
            assert_eq!(page.error, Some("io error: disk full".to_string()));
            assert_eq!(page.title, "Arm");
            assert_eq!(page.selected, Some(2));
            assert!(page.read_only);
        }
        other => panic!("{:?}", other),
    }
}
