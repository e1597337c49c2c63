use std::path::Path;

use lerobot_servo_adjust::api::{self, ApiError, Details, KindParam, PatchJoint};
use lerobot_servo_adjust::model::{Joint, Profile};
use lerobot_servo_adjust::names::NameMap;
use lerobot_servo_adjust::store::{Kind, ProfileMeta, ScanEntry, Step, Store, StoreError};

/// A file system kept in memory: the directories that were made, and each
/// file with the profile that was written to it.
struct Disk {
    dirs: Vec<String>,
    files: Vec<(String, Profile)>,
}

impl Disk {
    fn new() -> Disk {
        Disk { dirs: Vec::new(), files: Vec::new() }
    }

    fn has(&self, path: &str) -> bool {
        self.files.iter().any(|(p, _)| p == path)
    }

    fn read(&self, path: &str) -> Option<Profile> {
        self.files.iter().find(|(p, _)| p == path).map(|(_, c)| c.clone())
    }

    fn put(&mut self, path: &str, content: Profile) {
        self.files.retain(|(p, _)| p != path);
        self.files.push((path.to_string(), content));
    }

    fn remove(&mut self, path: &str) {
        self.files.retain(|(p, _)| p != path);
    }

    fn run(&mut self, steps: &[Step], payload: &Profile) {
        for step in steps {
            match step {
                Step::CreateDirAll { dir } => {
                    if !self.dirs.contains(dir) {
                        self.dirs.push(dir.clone());
                    }
                }
                Step::Copy { from, to } => {
                    let content = self.read(from).unwrap();
                    self.put(to, content);
                }
                Step::WriteSynced { path } => self.put(path, payload.clone()),
                Step::Rename { from, to } => {
                    let content = self.read(from).unwrap();
                    self.remove(from);
                    self.put(to, content);
                }
            }
        }
    }

    fn scan(&self, dir: &str) -> Option<Vec<ScanEntry>> {
        if !self.dirs.iter().any(|d| d == dir) {
            return None;
        }
        let mut entries = vec![entry(dir, false)];
        for (path, _) in self.files.iter() {
            if Path::new(path).starts_with(dir) {
                entries.push(entry(path, true));
            }
        }
        Some(entries)
    }
}

fn entry(path: &str, is_file: bool) -> ScanEntry {
    let file_name = Path::new(path).file_name().and_then(|n| n.to_str()).map(|n| n.to_string());
    ScanEntry { path: path.to_string(), file_name, is_file }
}

fn joint(id: i32, range_min: i32, range_max: i32) -> Joint {
    Joint { id, drive_mode: 0, homing_offset: 0, range_min, range_max }
}

fn profile(joints: &[(&str, Joint)]) -> Profile {
    let mut map = NameMap::new();
    for (name, j) in joints {
        map.insert(name.to_string(), *j);
    }
    Profile(map)
}

fn write(disk: &mut Disk, store: &Store, kind: Kind, name: &str, p: &Profile, backup: bool) -> Result<String, StoreError> {
    let plan = store.write_profile(kind, name, p, backup)?;
    let steps = plan.steps(disk.has(&plan.path));
    disk.run(&steps, p);
    Ok(plan.path)
}

fn read(disk: &Disk, store: &Store, kind: Kind, name: &str) -> Result<Profile, StoreError> {
    let entries = disk.scan(&store.kind_dir(kind)).unwrap_or_default();
    let found = Store::find_profile(&entries, name).map(|i| Ok(disk.read(&entries[i].path).unwrap()));
    Store::read_profile(kind, name, found)
}

fn list(disk: &Disk, store: &Store, kind: Kind) -> Vec<String> {
    let scan = disk.scan(&store.kind_dir(kind));
    let metas = Store::list_profiles(scan.as_ref()).unwrap();
    api::list_profiles(&metas)
}

fn delete(disk: &mut Disk, store: &Store, kind: Kind, name: &str) -> Result<(), StoreError> {
    let path = store.profile_path(kind, name);
    let target = store.delete_profile(kind, name, disk.has(&path))?;
    disk.remove(&target);
    Ok(())
}

fn names(metas: &[ProfileMeta]) -> Vec<&str> {
    metas.iter().map(|m| m.name.as_str()).collect()
}

#[test]
fn list_and_rw_profile() {
    let mut disk = Disk::new();
    let store = Store::new("calib".to_string());

    let mut map = NameMap::new();
    map.insert("j1".to_string(), Joint { id: 1, drive_mode: 0, homing_offset: 0, range_min: 1, range_max: 10 });
    let p = Profile(map);

    // write
    let out = write(&mut disk, &store, Kind::Robots, "test_profile", &p, true).unwrap();
    assert!(disk.has(&out));

    // list
    let scan = disk.scan(&store.kind_dir(Kind::Robots));
    let metas = Store::list_profiles(scan.as_ref()).unwrap();
    assert!(metas.iter().any(|m| m.name == "test_profile"));

    // read
    let read = read(&disk, &store, Kind::Robots, "test_profile").unwrap();
    assert_eq!(read, p);
}

#[test]
fn kind_names() {
    assert_eq!(Kind::Robots.as_str(), "robots");
    assert_eq!(Kind::Teleoperators.as_str(), "teleoperators");
}

#[test]
fn kind_directory_is_joined_to_the_root() {
    let store = Store::new("calib".to_string());
    let robots = store.kind_dir(Kind::Robots);
    let teleoperators = store.kind_dir(Kind::Teleoperators);
    assert_eq!(Path::new(&robots), Path::new("calib").join("robots"));
    assert_eq!(Path::new(&teleoperators), Path::new("calib").join("teleoperators"));
    assert_ne!(robots, "calib");
    assert_ne!(robots, "robots");
    assert_ne!(robots, teleoperators);
}

#[test]
fn profile_path_is_the_canonical_file() {
    let store = Store::new("calib".to_string());
    let path = store.profile_path(Kind::Teleoperators, "leader");
    assert_eq!(Path::new(&path), Path::new("calib").join("teleoperators").join("leader.json"));
}

#[test]
fn write_plan_names_the_three_files() {
    let store = Store::new("root".to_string());
    let p = profile(&[("j1", joint(1, 1, 10))]);
    let plan = store.write_profile(Kind::Robots, "so101", &p, true).unwrap();
    let dir = Path::new("root").join("robots");
    assert_eq!(Path::new(&plan.dir), dir);
    assert_eq!(Path::new(&plan.path), dir.join("so101.json"));
    assert_eq!(Path::new(&plan.tmp), dir.join("so101.json.tmp"));
    assert_eq!(Path::new(&plan.bak), dir.join("so101.json.bak"));
    assert!(plan.backup);
    let plan = store.write_profile(Kind::Robots, "so101", &p, false).unwrap();
    assert!(!plan.backup);
}

#[test]
fn write_refuses_a_profile_that_is_not_valid() {
    let store = Store::new("root".to_string());
    let p = profile(&[("good", joint(1, 1, 10)), ("bad", joint(0, 1, 10))]);
    for backup in [false, true] {
        let r = store.write_profile(Kind::Robots, "so101", &p, backup);
        assert_eq!(r.err(), Some(StoreError::Validation("joint `bad` invalid: id must be > 0".to_string())));
    }
}

#[test]
fn write_steps_without_backup() {
    let store = Store::new("root".to_string());
    let p = profile(&[("j1", joint(1, 1, 10))]);
    let plan = store.write_profile(Kind::Robots, "so101", &p, false).unwrap();
    let expected = vec![
        Step::CreateDirAll { dir: plan.dir.clone() },
        Step::WriteSynced { path: plan.tmp.clone() },
        Step::Rename { from: plan.tmp.clone(), to: plan.path.clone() },
    ];
    assert_eq!(plan.steps(false), expected);
    assert_eq!(plan.steps(true), expected);
}

#[test]
fn write_steps_with_backup() {
    let store = Store::new("root".to_string());
    let p = profile(&[("j1", joint(1, 1, 10))]);
    let plan = store.write_profile(Kind::Robots, "so101", &p, true).unwrap();
    assert_eq!(
        plan.steps(true),
        vec![
            Step::CreateDirAll { dir: plan.dir.clone() },
            Step::Copy { from: plan.path.clone(), to: plan.bak.clone() },
            Step::WriteSynced { path: plan.tmp.clone() },
            Step::Rename { from: plan.tmp.clone(), to: plan.path.clone() },
        ]
    );
    assert_eq!(
        plan.steps(false),
        vec![
            Step::CreateDirAll { dir: plan.dir.clone() },
            Step::WriteSynced { path: plan.tmp.clone() },
            Step::Rename { from: plan.tmp.clone(), to: plan.path.clone() },
        ]
    );
}

#[test]
fn round_trip_of_a_valid_profile() {
    let store = Store::new("calib".to_string());
    let p = profile(&[("shoulder_pan", joint(1, 100, 200)), ("gripper", joint(6, -50, 50))]);
    for kind in [Kind::Robots, Kind::Teleoperators] {
        for backup in [false, true] {
            let mut disk = Disk::new();
            write(&mut disk, &store, kind, "arm", &p, backup).unwrap();
            assert_eq!(read(&disk, &store, kind, "arm"), Ok(p.clone()));
        }
    }
}

#[test]
fn kinds_do_not_share_profiles() {
    let mut disk = Disk::new();
    let store = Store::new("calib".to_string());
    let p = profile(&[("j1", joint(1, 1, 10))]);
    write(&mut disk, &store, Kind::Robots, "arm", &p, false).unwrap();
    assert_eq!(
        read(&disk, &store, Kind::Teleoperators, "arm"),
        Err(StoreError::NotFound("teleoperators:arm".to_string()))
    );
    assert_eq!(list(&disk, &store, Kind::Teleoperators), Vec::<String>::new());
}

#[test]
fn backup_holds_what_was_there_before() {
    let mut disk = Disk::new();
    let store = Store::new("calib".to_string());
    let former = profile(&[("j1", joint(1, 1, 10))]);
    let new = profile(&[("j1", joint(1, 1, 20))]);
    let path = write(&mut disk, &store, Kind::Robots, "so101", &former, true).unwrap();
    let bak = format!("{}.bak", path);
    let tmp = format!("{}.tmp", path);
    assert!(!disk.has(&bak));
    write(&mut disk, &store, Kind::Robots, "so101", &new, true).unwrap();
    assert_eq!(disk.read(&bak), Some(former));
    assert_eq!(disk.read(&path), Some(new));
    assert!(!disk.has(&tmp));
}

#[test]
fn write_without_backup_leaves_the_backup_alone() {
    let mut disk = Disk::new();
    let store = Store::new("calib".to_string());
    let first = profile(&[("j1", joint(1, 1, 10))]);
    let second = profile(&[("j1", joint(1, 1, 20))]);
    let third = profile(&[("j1", joint(1, 1, 30))]);
    let path = write(&mut disk, &store, Kind::Robots, "so101", &first, false).unwrap();
    let bak = format!("{}.bak", path);
    write(&mut disk, &store, Kind::Robots, "so101", &second, false).unwrap();
    assert!(!disk.has(&bak));
    write(&mut disk, &store, Kind::Robots, "so101", &third, true).unwrap();
    assert_eq!(disk.read(&bak), Some(second.clone()));
    write(&mut disk, &store, Kind::Robots, "so101", &first, false).unwrap();
    assert_eq!(disk.read(&bak), Some(second));
    assert_eq!(disk.read(&path), Some(first));
}

#[test]
fn listing_of_an_absent_directory_is_empty() {
    let metas = Store::list_profiles(None).unwrap();
    assert!(metas.is_empty());
    let disk = Disk::new();
    let store = Store::new("calib".to_string());
    assert_eq!(list(&disk, &store, Kind::Robots), Vec::<String>::new());
}

#[test]
fn listing_of_an_empty_directory_is_empty() {
    let entries = vec![entry("calib/robots", false)];
    let metas = Store::list_profiles(Some(&entries)).unwrap();
    assert!(metas.is_empty());
    let none: Vec<ScanEntry> = Vec::new();
    assert!(Store::list_profiles(Some(&none)).unwrap().is_empty());
}

#[test]
fn listing_is_sorted() {
    let mut disk = Disk::new();
    let store = Store::new("calib".to_string());
    let p = profile(&[("j1", joint(1, 1, 10))]);
    write(&mut disk, &store, Kind::Robots, "b", &p, false).unwrap();
    write(&mut disk, &store, Kind::Robots, "a", &p, false).unwrap();
    assert_eq!(list(&disk, &store, Kind::Robots), vec!["a".to_string(), "b".to_string()]);
}

#[test]
fn listing_sorts_as_str_does() {
    let files = ["zeta.json", "Alpha.json", "alpha.json", "alpha2.json", "beta.json", "_x.json", "10.json", "9.json"];
    let entries: Vec<ScanEntry> = files.iter().map(|f| entry(&format!("r/{}", f), true)).collect();
    let metas = Store::list_profiles(Some(&entries)).unwrap();
    let mut expected: Vec<&str> = files.iter().map(|f| f.trim_end_matches(".json")).collect();
    expected.sort();
    assert_eq!(names(&metas), expected);
    assert_eq!(names(&metas), vec!["10", "9", "Alpha", "_x", "alpha", "alpha2", "beta", "zeta"]);
}

#[test]
fn listing_passes_over_what_is_no_profile() {
    let entries = vec![
        entry("r", false),
        entry("r/so101.json", true),
        entry("r/so101.json.bak", true),
        entry("r/so101.json.tmp", true),
        entry("r/notes.txt", true),
        entry("r/.json", true),
        entry("r/json", true),
        entry("r/dir.json", false),
        ScanEntry { path: "r/odd.json".to_string(), file_name: None, is_file: true },
        entry("r/sub/so102.json", true),
    ];
    let metas = Store::list_profiles(Some(&entries)).unwrap();
    assert_eq!(names(&metas), vec!["so101", "so102"]);
    assert_eq!(metas[0].path, "r/so101.json");
    assert_eq!(metas[1].path, "r/sub/so102.json");
}

#[test]
fn listing_keeps_the_order_of_the_walk_for_one_name() {
    let entries = vec![
        entry("r/z/p.json", true),
        entry("r/q.json", true),
        entry("r/a/p.json", true),
        entry("r/m/p.json", true),
        entry("r/a.json", true),
    ];
    let metas = Store::list_profiles(Some(&entries)).unwrap();
    let listed: Vec<(&str, &str)> = metas.iter().map(|m| (m.name.as_str(), m.path.as_str())).collect();
    assert_eq!(
        listed,
        vec![
            ("a", "r/a.json"),
            ("p", "r/z/p.json"),
            ("p", "r/a/p.json"),
            ("p", "r/m/p.json"),
            ("q", "r/q.json"),
        ]
    );
}

#[test]
fn scan_entry_tells_what_it_stores() {
    let m = entry("r/sub/so102.json", true).profile().unwrap();
    assert_eq!(m.name, "so102");
    assert_eq!(m.path, "r/sub/so102.json");
    assert!(entry("r/sub/so102.json", false).profile().is_none());
    assert!(entry("r/sub/so102.yaml", true).profile().is_none());
    assert!(ScanEntry { path: "x.json".to_string(), file_name: None, is_file: true }.profile().is_none());
}

#[test]
fn find_takes_the_first_match_of_the_walk() {
    let entries = vec![
        entry("r", false),
        entry("r/p.json.bak", true),
        entry("r/sub/p.json", true),
        entry("r/p.json", true),
        entry("r/q.json", true),
    ];
    assert_eq!(Store::find_profile(&entries, "p"), Some(2));
    assert_eq!(Store::find_profile(&entries, "q"), Some(4));
    assert_eq!(Store::find_profile(&entries, "r"), None);
    assert_eq!(Store::find_profile(&entries, "p.json"), None);
    assert_eq!(Store::find_profile(&entries, ""), None);
    assert_eq!(Store::find_profile(&Vec::new(), "p"), None);
}

#[test]
fn read_of_what_is_not_there_is_not_found() {
    let r = Store::read_profile(Kind::Robots, "ghost", None);
    assert_eq!(r, Err(StoreError::NotFound("robots:ghost".to_string())));
    let r = Store::read_profile(Kind::Teleoperators, "", None);
    assert_eq!(r, Err(StoreError::NotFound("teleoperators:".to_string())));
}

#[test]
fn read_passes_on_why_the_file_could_not_be_had() {
    let io = StoreError::Io("permission denied".to_string());
    assert_eq!(Store::read_profile(Kind::Robots, "p", Some(Err(io.clone()))), Err(io));
    let json = StoreError::Json("expected value at line 1 column 1".to_string());
    assert_eq!(Store::read_profile(Kind::Robots, "p", Some(Err(json.clone()))), Err(json));
}

#[test]
fn read_never_hands_out_a_profile_that_is_not_valid() {
    let bad = profile(&[("j1", joint(1, 10, 1))]);
    assert_eq!(
        Store::read_profile(Kind::Robots, "p", Some(Ok(bad))),
        Err(StoreError::Validation("joint `j1` invalid: range_min must be < range_max".to_string()))
    );
    let good = profile(&[("j1", joint(1, 1, 10))]);
    assert_eq!(Store::read_profile(Kind::Robots, "p", Some(Ok(good.clone()))), Ok(good));
}

#[test]
fn delete_of_what_is_not_there_is_not_found() {
    let mut disk = Disk::new();
    let store = Store::new("calib".to_string());
    assert_eq!(
        delete(&mut disk, &store, Kind::Robots, "ghost"),
        Err(StoreError::NotFound("robots:ghost".to_string()))
    );
    assert_eq!(
        store.delete_profile(Kind::Teleoperators, "t", false),
        Err(StoreError::NotFound("teleoperators:t".to_string()))
    );
}

#[test]
fn delete_removes_that_file_and_no_other() {
    let mut disk = Disk::new();
    let store = Store::new("calib".to_string());
    let a = profile(&[("j1", joint(1, 1, 10))]);
    let b = profile(&[("j1", joint(2, 1, 10))]);
    write(&mut disk, &store, Kind::Robots, "a", &a, false).unwrap();
    write(&mut disk, &store, Kind::Robots, "b", &b, false).unwrap();
    write(&mut disk, &store, Kind::Teleoperators, "a", &b, false).unwrap();
    assert_eq!(delete(&mut disk, &store, Kind::Robots, "a"), Ok(()));
    assert_eq!(list(&disk, &store, Kind::Robots), vec!["b".to_string()]);
    assert_eq!(read(&disk, &store, Kind::Robots, "b"), Ok(b.clone()));
    assert_eq!(read(&disk, &store, Kind::Teleoperators, "a"), Ok(b));
    assert_eq!(
        read(&disk, &store, Kind::Robots, "a"),
        Err(StoreError::NotFound("robots:a".to_string()))
    );
    assert_eq!(
        delete(&mut disk, &store, Kind::Robots, "a"),
        Err(StoreError::NotFound("robots:a".to_string()))
    );
}

#[test]
fn delete_names_the_canonical_file() {
    let store = Store::new("calib".to_string());
    let target = store.delete_profile(Kind::Robots, "so101", true).unwrap();
    assert_eq!(target, store.profile_path(Kind::Robots, "so101"));
    assert_eq!(Path::new(&target), Path::new("calib").join("robots").join("so101.json"));
}

#[test]
fn delete_goes_by_the_canonical_file_though_read_finds_another() {
    let mut disk = Disk::new();
    let store = Store::new("calib".to_string());
    let p = profile(&[("j1", joint(1, 1, 10))]);
    let dir = store.kind_dir(Kind::Robots);
    disk.dirs.push(dir.clone());
    let nested = Path::new(&dir).join("old").join("p.json");
    disk.put(nested.to_str().unwrap(), p.clone());
    assert_eq!(read(&disk, &store, Kind::Robots, "p"), Ok(p));
    assert_eq!(
        delete(&mut disk, &store, Kind::Robots, "p"),
        Err(StoreError::NotFound("robots:p".to_string()))
    );
}

#[test]
fn store_errors_as_text() {
    assert_eq!(StoreError::Io("disk full".to_string()).message(), "io error: disk full");
    assert_eq!(StoreError::Json("eof".to_string()).message(), "json error: eof");
    assert_eq!(StoreError::Validation("bad".to_string()).message(), "validation error: bad");
    assert_eq!(StoreError::NotFound("robots:p".to_string()).message(), "not found: robots:p");
}

#[test]
fn api_crud_profile() {
    let mut disk = Disk::new();
    let store = Store::new("calib".to_string());
    disk.dirs.push(store.kind_dir(Kind::Robots));
    disk.dirs.push(store.kind_dir(Kind::Teleoperators));

    // list empty
    let KindParam(kind) = KindParam::parse("robots").unwrap();
    assert_eq!(list(&disk, &store, kind).len(), 0);

    // create
    let mut map = NameMap::new();
    map.insert("j1".to_string(), Joint { id: 1, drive_mode: 0, homing_offset: 0, range_min: 1, range_max: 10 });
    let given = Profile(map);
    let (made, plan) = api::create_profile(&store, kind, "p1", Some(given.clone())).unwrap();
    assert_eq!(made, given);
    let steps = plan.steps(disk.has(&plan.path));
    disk.run(&steps, &made);

    // list has p1
    assert_eq!(list(&disk, &store, kind), vec!["p1".to_string()]);

    // get p1
    let entries = disk.scan(&store.kind_dir(kind)).unwrap();
    let found = Store::find_profile(&entries, "p1").map(|i| Ok(disk.read(&entries[i].path).unwrap()));
    let current = api::get_profile(kind, "p1", found).unwrap();
    assert_eq!(current, given);

    // patch p1
    let mut patch = NameMap::new();
    patch.insert(
        "j1".to_string(),
        PatchJoint { id: None, drive_mode: None, homing_offset: None, range_min: None, range_max: Some(20) },
    );
    let (changed, plan) = api::patch_profile(&store, kind, "p1", &current, &patch).unwrap();
    let steps = plan.steps(disk.has(&plan.path));
    disk.run(&steps, &changed);
    let expected = Joint { id: 1, drive_mode: 0, homing_offset: 0, range_min: 1, range_max: 20 };
    assert_eq!(read(&disk, &store, kind, "p1").unwrap().0.get("j1"), Some(&expected));
    assert_eq!(disk.read(&plan.bak), Some(given));

    // put p1
    let mut map2 = NameMap::new();
    map2.insert("j1".to_string(), Joint { id: 2, drive_mode: 1, homing_offset: 5, range_min: 2, range_max: 30 });
    let profile2 = Profile(map2);
    let plan = api::put_profile(&store, kind, "p1", &profile2).unwrap();
    let steps = plan.steps(disk.has(&plan.path));
    disk.run(&steps, &profile2);
    assert_eq!(read(&disk, &store, kind, "p1"), Ok(profile2));
    assert_eq!(disk.read(&plan.bak), Some(changed));

    // delete p1
    let target = api::delete_profile(&store, kind, "p1", disk.has(&plan.path)).unwrap();
    disk.remove(&target);
    assert_eq!(list(&disk, &store, kind).len(), 0);
    let gone: Result<String, ApiError> = api::delete_profile(&store, kind, "p1", disk.has(&plan.path));
    assert_eq!(
        gone,
        Err(ApiError { status: 404, message: "robots:p1".to_string(), details: None })
    );
    assert_eq!(
        KindParam::parse("robot").err().map(|e| e.details),
        Some(Some(Details::Kind("robot".to_string())))
    );
}
