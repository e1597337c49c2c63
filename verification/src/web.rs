//! What the pages decide: the picture of an arm with its joints, what a
//! form that was sent to a page leads to, and what the page answers.

use vstd::prelude::*;
use crate::api::PatchJoint;
use crate::model::{Joint, Profile};
use crate::store::{Kind, Store, StoreError, StoreErrorView, WritePlan};
use crate::text::{concat_text, decimal, decimal_text, same_text};

verus! {

/// The number of joints that the picture of an arm shows.
pub const JOINTS: u8 = 6;

/// The kind whose profiles the arm pages read: the teleoperators where they
/// are named, and the robots for any other name.
pub open spec fn arm_kind(kind: Seq<char>) -> Kind {
    if kind == "teleoperators"@ {
        Kind::Teleoperators
    } else {
        Kind::Robots
    }
}

/// The letter before the number of a joint that has no name: `L` for a
/// leader, which a teleoperator is, and `F` for a follower.
pub open spec fn prefix_of(kind: Seq<char>) -> Seq<char> {
    if kind == "teleoperators"@ {
        "L"@
    } else {
        "F"@
    }
}

/// What is selected: a joint of the picture, or nothing.
pub open spec fn chosen(sel: Option<u8>) -> Option<u8> {
    match sel {
        Some(v) => if 1 <= v <= JOINTS {
            Some(v)
        } else {
            None
        },
        None => None,
    }
}

/// Where joint `n` stands in the picture of the arm of a kind: its distance
/// from the top and from the left, in hundredths of the picture.
pub open spec fn spot(kind: Seq<char>, n: int) -> (u8, u8) {
    if kind == "robots"@ {
        if n == 1 {
            (86u8, 79u8)
        } else if n == 2 {
            (68u8, 77u8)
        } else if n == 3 {
            (25u8, 85u8)
        } else if n == 4 {
            (22u8, 70u8)
        } else if n == 5 {
            (18u8, 56u8)
        } else {
            (35u8, 49u8)
        }
    } else {
        if n == 1 {
            (83u8, 36u8)
        } else if n == 2 {
            (58u8, 31u8)
        } else if n == 3 {
            (20u8, 45u8)
        } else if n == 4 {
            (19u8, 28u8)
        } else if n == 5 {
            (15u8, 16u8)
        } else {
            (30u8, 9u8)
        }
    }
}

/// The kind whose profiles the arm pages read.
pub fn store_kind(kind: &str) -> (r: Kind)
    ensures
        r == arm_kind(kind@),
{
    if same_text(kind, "teleoperators") {
        Kind::Teleoperators
    } else {
        Kind::Robots
    }
}

/// The letter before the number of a joint that has no name.
pub fn label_prefix(kind: &str) -> (r: &'static str)
    ensures
        r@ == prefix_of(kind@),
{
    if same_text(kind, "teleoperators") {
        "L"
    } else {
        "F"
    }
}

/// What a request selects: only a joint of the picture can be selected.
pub fn selection(sel: Option<u8>) -> (r: Option<u8>)
    ensures
        r == chosen(sel),
{
    match sel {
        Some(v) => if 1 <= v && v <= JOINTS {
            Some(v)
        } else {
            None
        },
        None => None,
    }
}

/// Where joint `n` stands in the picture.
pub fn hotspot_place(kind: &str, n: u8) -> (r: (u8, u8))
    ensures
        r == spot(kind@, n as int),
{
    if same_text(kind, "robots") {
        if n == 1 {
            (86, 79)
        } else if n == 2 {
            (68, 77)
        } else if n == 3 {
            (25, 85)
        } else if n == 4 {
            (22, 70)
        } else if n == 5 {
            (18, 56)
        } else {
            (35, 49)
        }
    } else {
        if n == 1 {
            (83, 36)
        } else if n == 2 {
            (58, 31)
        } else if n == 3 {
            (20, 45)
        } else if n == 4 {
            (19, 28)
        } else if n == 5 {
            (15, 16)
        } else {
            (30, 9)
        }
    }
}

/// The id of the joint at index `i` of a profile, in insertion order.
pub open spec fn id_at(profile: Profile, i: int) -> int {
    profile@[profile.0.keys()[i]].id as int
}

/// Whether no joint of the profile has the id.
pub open spec fn none_with_id(profile: Profile, id: int) -> bool {
    forall|j: int| 0 <= j < profile.0.keys().len() ==> #[trigger] id_at(profile, j) != id
}

/// Whether the joint at index `i` is the first of the profile, in insertion
/// order, that has the id.
pub open spec fn first_with_id(profile: Profile, id: int, i: int) -> bool {
    &&& 0 <= i < profile.0.keys().len()
    &&& id_at(profile, i) == id
    &&& forall|j: int| 0 <= j < i ==> #[trigger] id_at(profile, j) != id
}

/// Whether the joint at index `i` is the last of the profile, in insertion
/// order, that has the id.
pub open spec fn last_with_id(profile: Profile, id: int, i: int) -> bool {
    &&& 0 <= i < profile.0.keys().len()
    &&& id_at(profile, i) == id
    &&& forall|j: int| i < j < profile.0.keys().len() ==> #[trigger] id_at(profile, j) != id
}

/// The index of the first joint that has the id.
pub fn joint_with_id(profile: &Profile, id: i32) -> (r: Option<usize>)
    ensures
        match r {
            Some(i) => first_with_id(*profile, id as int, i as int),
            None => none_with_id(*profile, id as int),
        },
{
    let n = profile.0.len();
    let mut i: usize = 0;
    while i < n
        invariant
            n == profile.0.keys().len(),
            i <= n,
            forall|j: int| 0 <= j < i ==> #[trigger] id_at(*profile, j) != id,
        decreases n - i,
    {
        if profile.0.value_at(i).id == id {
            return Some(i);
        }
        i += 1;
    }
    None
}

/// Whether `label` is what the picture writes beside joint `n`: the name of
/// the last joint of the profile that has `n` for its id, or, where the
/// profile has none or there is no profile, the kind's letter and `n`.
pub open spec fn is_label(profile: Option<&Profile>, kind: Seq<char>, n: int, label: Seq<char>) -> bool {
    match profile {
        Some(p) => {
            ||| exists|i: int| last_with_id(*p, n, i) && label == p.0.keys()[i]
            ||| none_with_id(*p, n) && label == prefix_of(kind) + decimal(n as nat)
        },
        None => label == prefix_of(kind) + decimal(n as nat),
    }
}

/// What the picture writes beside joint `n`.
pub fn hotspot_label(profile: Option<&Profile>, kind: &str, n: u8) -> (r: String)
    ensures
        is_label(profile, kind@, n as int, r@),
{
    let mut found: Option<usize> = None;
    match profile {
        Some(p) => {
            let len = p.0.len();
            let mut i: usize = 0;
            while i < len
                invariant
                    len == p.0.keys().len(),
                    i <= len,
                    match found {
                        Some(k) => k < i && id_at(*p, k as int) == n && forall|j: int|
                            k < j < i ==> #[trigger] id_at(*p, j) != n,
                        None => forall|j: int| 0 <= j < i ==> #[trigger] id_at(*p, j) != n,
                    },
                decreases len - i,
            {
                if p.0.value_at(i).id == n as i32 {
                    found = Some(i);
                }
                i += 1;
            }
            match found {
                Some(k) => {
                    proof {
                        assert(last_with_id(*p, n as int, k as int));
                    }
                    return p.0.name_at(k).clone();
                },
                None => {},
            }
        },
        None => {},
    }
    concat_text(label_prefix(kind), decimal_text(n).as_str())
}

/// One joint of the picture.
#[derive(Debug, Clone, PartialEq, Eq)]
pub struct Hotspot {
    pub n: u8,
    pub top: u8,
    pub left: u8,
    pub selected: bool,
    pub label: String,
}

/// Whether `h` is joint `n` of the picture of a kind's arm.
pub open spec fn is_hotspot(h: Hotspot, kind: Seq<char>, sel: Option<u8>, profile: Option<&Profile>, n: int) -> bool {
    &&& h.n == n
    &&& (h.top, h.left) == spot(kind, n)
    &&& h.selected == (sel == Some(n as u8))
    &&& is_label(profile, kind, n, h.label@)
}

/// The joints of the picture, from the first to the last.
pub fn hotspots(kind: &str, sel: Option<u8>, profile: Option<&Profile>) -> (r: Vec<Hotspot>)
    ensures
        r@.len() == JOINTS,
        forall|i: int| 0 <= i < JOINTS ==> is_hotspot(#[trigger] r@[i], kind@, sel, profile, i + 1),
{
    let mut spots: Vec<Hotspot> = Vec::new();
    let mut n: u8 = 1;
    while n <= JOINTS
        invariant
            1 <= n <= JOINTS + 1,
            spots@.len() == n - 1,
            forall|i: int| 0 <= i < n - 1 ==> is_hotspot(#[trigger] spots@[i], kind@, sel, profile, i + 1),
        decreases JOINTS + 1 - n,
    {
        let (top, left) = hotspot_place(kind, n);
        let selected = match sel {
            Some(v) => v == n,
            None => false,
        };
        let label = hotspot_label(profile, kind, n);
        spots.push(Hotspot { n, top, left, selected, label });
        n += 1;
    }
    spots
}

/// The buttons for the profiles of one kind: each name, and whether it is
/// the profile that the page shows.
pub fn buttons(names: &Vec<String>, shown: bool, profile: &str) -> (r: Vec<(String, bool)>)
    ensures
        r@.len() == names@.len(),
        forall|i: int|
            0 <= i < r@.len() ==> (#[trigger] r@[i]).0@ == names@[i]@ && r@[i].1 == (shown && profile@
                == names@[i]@),
{
    let mut btns: Vec<(String, bool)> = Vec::new();
    let mut i: usize = 0;
    while i < names.len()
        invariant
            i <= names@.len(),
            btns@.len() == i,
            forall|k: int|
                0 <= k < i ==> (#[trigger] btns@[k]).0@ == names@[k]@ && btns@[k].1 == (shown && profile@
                    == names@[k]@),
        decreases names@.len() - i,
    {
        let active = shown && same_text(profile, names[i].as_str());
        btns.push((names[i].clone(), active));
        i += 1;
    }
    btns
}

/// The address of a profile in the API of the server at `base`.
pub open spec fn api_address(base: Seq<char>, kind: Seq<char>, name: Seq<char>) -> Seq<char> {
    base + "/api/profiles/"@ + kind + "/"@ + name
}

/// The address of the page of a profile.
pub open spec fn profile_address(kind: Seq<char>, name: Seq<char>) -> Seq<char> {
    "/profiles/"@ + kind + "/"@ + name
}

/// The address of the page of an arm with joint `id` selected.
pub open spec fn arm_address(kind: Seq<char>, name: Seq<char>, id: u8) -> Seq<char> {
    "/arm/"@ + kind + "/"@ + name + "?sel="@ + decimal(id as nat)
}

/// The address of a profile in the API of the server at `base`.
pub fn api_url(base: &str, kind: &str, name: &str) -> (r: String)
    ensures
        r@ == api_address(base@, kind@, name@),
{
    let a = concat_text(base, "/api/profiles/");
    let b = concat_text(a.as_str(), kind);
    let c = concat_text(b.as_str(), "/");
    concat_text(c.as_str(), name)
}

/// The address of the page of a profile.
pub fn profile_url(kind: &str, name: &str) -> (r: String)
    ensures
        r@ == profile_address(kind@, name@),
{
    let a = concat_text("/profiles/", kind);
    let b = concat_text(a.as_str(), "/");
    concat_text(b.as_str(), name)
}

/// The address of the page of an arm with joint `id` selected.
pub fn arm_url(kind: &str, name: &str, id: u8) -> (r: String)
    ensures
        r@ == arm_address(kind@, name@, id),
{
    let a = concat_text("/arm/", kind);
    let b = concat_text(a.as_str(), "/");
    let c = concat_text(b.as_str(), name);
    let d = concat_text(c.as_str(), "?sel=");
    concat_text(d.as_str(), decimal_text(id).as_str())
}

/// The answer of the API to a request that a page passed on to it.
#[derive(Debug, Clone, PartialEq, Eq)]
pub enum Remote {
    /// The API did what was asked.
    Done,
    /// The API answered with a status that is no success; the text is the status.
    Refused(String),
    /// No answer came; the text says why.
    Failed(String),
}

/// What a page says of a request that the API did not carry out: `what` is
/// the word for what was asked.
pub open spec fn remote_fault(what: Seq<char>, answer: Remote) -> Option<Seq<char>> {
    match answer {
        Remote::Done => None,
        Remote::Refused(status) => Some(what + " failed: "@ + status@),
        Remote::Failed(cause) => Some("request error: "@ + cause@),
    }
}

/// What a page says of a request that the API did not carry out.
fn remote_error(what: &str, answer: &Remote) -> (r: Option<String>)
    ensures
        match r {
            Some(msg) => remote_fault(what@, *answer) == Some(msg@),
            None => remote_fault(what@, *answer) is None,
        },
{
    match answer {
        Remote::Done => None,
        Remote::Refused(status) => {
            let head = concat_text(what, " failed: ");
            Some(concat_text(head.as_str(), status.as_str()))
        },
        Remote::Failed(cause) => Some(concat_text("request error: ", cause.as_str())),
    }
}

/// The page of one profile.
#[derive(Debug, Clone, PartialEq, Eq)]
pub struct ProfilePage {
    pub title: String,
    pub kind: String,
    pub name: String,
    pub json: String,
    pub error: Option<String>,
}

/// Whether `page` is the page of a profile with that text and that error.
pub open spec fn is_profile_page(
    page: ProfilePage,
    kind: Seq<char>,
    name: Seq<char>,
    json: Seq<char>,
    error: Option<Seq<char>>,
) -> bool {
    &&& page.title@ == "Profile"@
    &&& page.kind@ == kind
    &&& page.name@ == name
    &&& page.json@ == json
    &&& match error {
        Some(msg) => page.error matches Some(e) && e@ == msg,
        None => page.error is None,
    }
}

impl ProfilePage {
    /// The page of a profile with its text, or with what went wrong.
    pub fn new(kind: &str, name: &str, json: String, error: Option<String>) -> (r: ProfilePage)
        ensures
            r.title@ == "Profile"@,
            r.kind@ == kind@,
            r.name@ == name@,
            r.json == json,
            r.error == error,
    {
        ProfilePage {
            title: "Profile".to_string(),
            kind: kind.to_owned(),
            name: name.to_owned(),
            json,
            error,
        }
    }

    /// The page for a kind that is none.
    pub fn invalid_kind(kind: &str, name: &str) -> (r: ProfilePage)
        ensures
            is_profile_page(r, kind@, name@, Seq::<char>::empty(), Some("invalid kind"@)),
    {
        ProfilePage::new(kind, name, String::new(), Some("invalid kind".to_string()))
    }

    /// The page of a profile that the store was asked for: `read` is the
    /// profile as text, or why the store did not hand it out.
    pub fn of_read(kind: &str, name: &str, read: Result<String, StoreError>) -> (r: ProfilePage)
        ensures
            match read {
                Ok(json) => is_profile_page(r, kind@, name@, json@, None),
                Err(e) => is_profile_page(r, kind@, name@, Seq::<char>::empty(), Some(e@.text())),
            },
    {
        match read {
            Ok(json) => ProfilePage::new(kind, name, json, None),
            Err(e) => ProfilePage::new(kind, name, String::new(), Some(e.message())),
        }
    }
}

/// What the page of a profile does with a form that was sent to it.
#[derive(Debug, Clone, PartialEq, Eq)]
pub enum ProfileUpdate {
    /// Nothing: the form is answered with a page that says why.
    Reject(ProfilePage),
    /// Ask the API at this address to delete the profile.
    RemoteDelete { url: String },
    /// Delete the profile in the store.
    LocalDelete { kind: Kind },
    /// Send the text to the API at this address to replace the profile.
    RemotePut { url: String, json: String },
    /// Parse the text and write it to the store in place of the profile.
    LocalPut { kind: Kind, json: String },
}

/// Decides what to do with a form. A kind that is none is refused first. A
/// form whose action is `delete` deletes, whatever else it holds; any other
/// form replaces the profile by the text it brings, and is refused where it
/// brings none. Where the server knows its own address the work is passed on
/// to its API, else it is done in the store.
pub fn update_profile(
    base_url: Option<&str>,
    kind: &str,
    name: &str,
    action: Option<&str>,
    json: Option<String>,
) -> (r: ProfileUpdate)
    ensures
        match Kind::named(kind@) {
            None => r matches ProfileUpdate::Reject(page) && is_profile_page(
                page,
                kind@,
                name@,
                Seq::<char>::empty(),
                Some("invalid kind"@),
            ),
            Some(k) => if action matches Some(a) && a@ == "delete"@ {
                match base_url {
                    Some(base) => r matches ProfileUpdate::RemoteDelete { url } && url@ == api_address(
                        base@,
                        kind@,
                        name@,
                    ),
                    None => r == (ProfileUpdate::LocalDelete { kind: k }),
                }
            } else {
                match json {
                    Some(text) => match base_url {
                        Some(base) => r matches ProfileUpdate::RemotePut { url, json: sent } && url@
                            == api_address(base@, kind@, name@) && sent == text,
                        None => r == (ProfileUpdate::LocalPut { kind: k, json: text }),
                    },
                    None => r matches ProfileUpdate::Reject(page) && is_profile_page(
                        page,
                        kind@,
                        name@,
                        Seq::<char>::empty(),
                        Some("missing json"@),
                    ),
                }
            },
        },
{
    let k = match Kind::from_name(kind) {
        Some(k) => k,
        None => {
            return ProfileUpdate::Reject(ProfilePage::invalid_kind(kind, name));
        },
    };
    let delete = match action {
        Some(a) => same_text(a, "delete"),
        None => false,
    };
    if delete {
        return match base_url {
            Some(base) => ProfileUpdate::RemoteDelete { url: api_url(base, kind, name) },
            None => ProfileUpdate::LocalDelete { kind: k },
        };
    }
    match json {
        Some(text) => match base_url {
            Some(base) => ProfileUpdate::RemotePut { url: api_url(base, kind, name), json: text },
            None => ProfileUpdate::LocalPut { kind: k, json: text },
        },
        None => ProfileUpdate::Reject(
            ProfilePage::new(kind, name, String::new(), Some("missing json".to_string())),
        ),
    }
}

/// What a page answers: another address to go to, or itself.
#[derive(Debug, Clone, PartialEq, Eq)]
pub enum Reply {
    Redirect(String),
    Page(ProfilePage),
}

/// Why a profile could not be replaced in the store.
#[derive(Debug, Clone, PartialEq, Eq)]
pub enum PutFailure {
    /// The text is no profile; the parser's reason.
    Parse(String),
    /// The store refused or failed.
    Store(StoreError),
}

/// The answer to a form after the API was asked to delete the profile: the
/// start page once it is gone, else the profile's page with the reason.
pub fn after_remote_delete(kind: &str, name: &str, answer: Remote) -> (r: Reply)
    ensures
        match remote_fault("delete"@, answer) {
            None => r matches Reply::Redirect(to) && to@ == "/"@,
            Some(msg) => r matches Reply::Page(page) && is_profile_page(
                page,
                kind@,
                name@,
                Seq::<char>::empty(),
                Some(msg),
            ),
        },
{
    match remote_error("delete", &answer) {
        None => Reply::Redirect("/".to_string()),
        Some(msg) => Reply::Page(ProfilePage::new(kind, name, String::new(), Some(msg))),
    }
}

/// The answer to a form after the store was asked to delete the profile.
pub fn after_local_delete(kind: &str, name: &str, outcome: Result<(), StoreError>) -> (r: Reply)
    ensures
        match outcome {
            Ok(_) => r matches Reply::Redirect(to) && to@ == "/"@,
            Err(e) => r matches Reply::Page(page) && is_profile_page(
                page,
                kind@,
                name@,
                Seq::<char>::empty(),
                Some(e@.text()),
            ),
        },
{
    match outcome {
        Ok(_) => Reply::Redirect("/".to_string()),
        Err(e) => Reply::Page(ProfilePage::new(kind, name, String::new(), Some(e.message()))),
    }
}

/// The answer to a form after its text was sent to the API: the profile's
/// page afresh once the profile is replaced, else the page with the text
/// that was sent and the reason.
pub fn after_remote_put(kind: &str, name: &str, json: String, answer: Remote) -> (r: Reply)
    ensures
        match remote_fault("update"@, answer) {
            None => r matches Reply::Redirect(to) && to@ == profile_address(kind@, name@),
            Some(msg) => r matches Reply::Page(page) && is_profile_page(
                page,
                kind@,
                name@,
                json@,
                Some(msg),
            ),
        },
{
    match remote_error("update", &answer) {
        None => Reply::Redirect(profile_url(kind, name)),
        Some(msg) => Reply::Page(ProfilePage::new(kind, name, json, Some(msg))),
    }
}

/// What a page says of a profile that could not be replaced in the store.
pub open spec fn put_fault(failure: PutFailure) -> Seq<char> {
    match failure {
        PutFailure::Parse(cause) => "invalid json: "@ + cause@,
        PutFailure::Store(e) => e@.text(),
    }
}

/// The answer to a form after its text was to be written to the store.
pub fn after_local_put(kind: &str, name: &str, json: String, outcome: Result<(), PutFailure>) -> (r: Reply)
    ensures
        match outcome {
            Ok(_) => r matches Reply::Redirect(to) && to@ == profile_address(kind@, name@),
            Err(failure) => r matches Reply::Page(page) && is_profile_page(
                page,
                kind@,
                name@,
                json@,
                Some(put_fault(failure)),
            ),
        },
{
    match outcome {
        Ok(_) => Reply::Redirect(profile_url(kind, name)),
        Err(PutFailure::Parse(cause)) => Reply::Page(
            ProfilePage::new(kind, name, json, Some(concat_text("invalid json: ", cause.as_str()))),
        ),
        Err(PutFailure::Store(e)) => Reply::Page(ProfilePage::new(kind, name, json, Some(e.message()))),
    }
}

/// The page of an arm.
#[derive(Debug, Clone, PartialEq, Eq)]
pub struct ArmPage {
    pub title: String,
    pub kind: String,
    pub name: String,
    pub label_prefix: String,
    pub selected: Option<u8>,
    pub has_selection: bool,
    pub joint_name: Option<String>,
    pub has_joint: bool,
    pub joint_label: String,
    pub selected_n: u8,
    pub id_v: i32,
    pub drive_mode_v: i32,
    pub homing_offset_v: i32,
    pub range_min_v: i32,
    pub range_max_v: i32,
    pub error: Option<String>,
    pub message: Option<String>,
    pub hotspots: Vec<Hotspot>,
    pub robots_btns: Vec<(String, bool)>,
    pub leaders_btns: Vec<(String, bool)>,
    pub read_only: bool,
}

/// Whether the page shows the joint `name` with the fields of `joint`.
pub open spec fn shows_joint(page: ArmPage, name: Seq<char>, joint: Joint) -> bool {
    &&& page.joint_name matches Some(n) && n@ == name
    &&& page.has_joint
    &&& page.joint_label@ == name
    &&& page.id_v == joint.id
    &&& page.drive_mode_v == joint.drive_mode
    &&& page.homing_offset_v == joint.homing_offset
    &&& page.range_min_v == joint.range_min
    &&& page.range_max_v == joint.range_max
}

/// Whether the page shows no joint: no name, and every field zero.
pub open spec fn shows_no_joint(page: ArmPage) -> bool {
    &&& page.joint_name is None
    &&& !page.has_joint
    &&& page.joint_label@ == Seq::<char>::empty()
    &&& page.id_v == 0
    &&& page.drive_mode_v == 0
    &&& page.homing_offset_v == 0
    &&& page.range_min_v == 0
    &&& page.range_max_v == 0
}

/// Whether the page has that error, or none.
pub open spec fn has_error(page: ArmPage, error: Option<Seq<char>>) -> bool {
    match error {
        Some(msg) => page.error matches Some(e) && e@ == msg,
        None => page.error is None,
    }
}

/// The title of the page of an arm.
pub open spec fn arm_title(kind: Seq<char>, name: Seq<char>) -> Seq<char> {
    "Arm - "@ + kind + " / "@ + name
}

/// What the page says where no joint has the selected number.
pub open spec fn no_such_joint(n: u8) -> Seq<char> {
    "joint with id="@ + decimal(n as nat) + " not found"@
}

/// Whether the buttons are those of the profiles `names`, with the one of
/// the profile `name` marked where `shown` holds.
pub open spec fn are_buttons(btns: Seq<(String, bool)>, names: Seq<String>, shown: bool, name: Seq<char>) -> bool {
    &&& btns.len() == names.len()
    &&& forall|i: int|
        0 <= i < btns.len() ==> (#[trigger] btns[i]).0@ == names[i]@ && btns[i].1 == (shown && name
            == names[i]@)
}

/// Whether `page` is the page of the arm of the profile `name` as the
/// store read it: the picture with its six joints, the buttons of all
/// profiles, and the fields of the first joint whose id is the selected
/// number. An error stands in for the fields where that joint, or the
/// profile, could not be had.
pub open spec fn is_arm_view(
    page: ArmPage,
    kind: Seq<char>,
    name: Seq<char>,
    sel: Option<u8>,
    robots: Seq<String>,
    leaders: Seq<String>,
    read: Result<Profile, StoreError>,
    read_only: bool,
) -> bool {
    let profile = match read {
        Ok(p) => Some(&p),
        Err(_) => None,
    };
    &&& page.title@ == arm_title(kind, name)
    &&& page.kind@ == kind
    &&& page.name@ == name
    &&& page.label_prefix@ == prefix_of(kind)
    &&& page.selected == chosen(sel)
    &&& page.has_selection == (chosen(sel) is Some)
    &&& page.selected_n == match chosen(sel) {
        Some(n) => n,
        None => 0,
    }
    &&& page.message is None
    &&& page.read_only == read_only
    &&& page.hotspots@.len() == JOINTS
    &&& forall|i: int|
        0 <= i < JOINTS ==> is_hotspot(#[trigger] page.hotspots@[i], kind, chosen(sel), profile, i + 1)
    &&& are_buttons(page.robots_btns@, robots, kind == "robots"@, name)
    &&& are_buttons(page.leaders_btns@, leaders, kind == "teleoperators"@, name)
    &&& match chosen(sel) {
        None => shows_no_joint(page) && has_error(page, None),
        Some(n) => match read {
            Ok(p) => {
                ||| exists|i: int|
                    first_with_id(p, n as int, i) && shows_joint(page, p.0.keys()[i], p@[p.0.keys()[i]])
                        && has_error(page, None)
                ||| none_with_id(p, n as int) && shows_no_joint(page) && has_error(
                    page,
                    Some(no_such_joint(n)),
                )
            },
            Err(e) => shows_no_joint(page) && has_error(page, Some(e@.text())),
        },
    }
}

/// The page of the arm of a profile. `read` is what the store made of the
/// profile, `robots` and `leaders` are the names of all profiles of the two
/// kinds, and `sel` is the number that the request selects, if any.
pub fn view_arm(
    kind: &str,
    name: &str,
    sel: Option<u8>,
    robots: &Vec<String>,
    leaders: &Vec<String>,
    read: &Result<Profile, StoreError>,
    read_only: bool,
) -> (r: ArmPage)
    ensures
        is_arm_view(r, kind@, name@, sel, robots@, leaders@, *read, read_only),
{
    let sel = selection(sel);
    let profile = match read {
        Ok(p) => Some(p),
        Err(_) => None,
    };
    let head = concat_text("Arm - ", kind);
    let mid = concat_text(head.as_str(), " / ");
    let mut page = ArmPage {
        title: concat_text(mid.as_str(), name),
        kind: kind.to_owned(),
        name: name.to_owned(),
        label_prefix: label_prefix(kind).to_owned(),
        selected: sel,
        has_selection: sel.is_some(),
        joint_name: None,
        has_joint: false,
        joint_label: String::new(),
        selected_n: match sel {
            Some(n) => n,
            None => 0,
        },
        id_v: 0,
        drive_mode_v: 0,
        homing_offset_v: 0,
        range_min_v: 0,
        range_max_v: 0,
        error: None,
        message: None,
        hotspots: hotspots(kind, sel, profile),
        robots_btns: buttons(robots, same_text(kind, "robots"), name),
        leaders_btns: buttons(leaders, same_text(kind, "teleoperators"), name),
        read_only,
    };
    match sel {
        Some(n) => match read {
            Ok(p) => match joint_with_id(p, n as i32) {
                Some(i) => {
                    let joint = *p.0.value_at(i);
                    page.joint_name = Some(p.0.name_at(i).clone());
                    page.has_joint = true;
                    page.joint_label = p.0.name_at(i).clone();
                    page.id_v = joint.id;
                    page.drive_mode_v = joint.drive_mode;
                    page.homing_offset_v = joint.homing_offset;
                    page.range_min_v = joint.range_min;
                    page.range_max_v = joint.range_max;
                    proof {
                        assert(shows_joint(page, p.0.keys()[i as int], p@[p.0.keys()[i as int]]));
                    }
                },
                None => {
                    let head = concat_text("joint with id=", decimal_text(n).as_str());
                    page.error = Some(concat_text(head.as_str(), " not found"));
                },
            },
            Err(e) => {
                page.error = Some(e.message());
            },
        },
        None => {},
    }
    page
}

/// The fields of a joint as the form of an arm's page sends them.
#[derive(Debug, Clone, Copy, PartialEq, Eq)]
pub struct ArmForm {
    pub id: u8,
    pub drive_mode: i32,
    pub homing_offset: i32,
    pub range_min: i32,
    pub range_max: i32,
}

impl ArmForm {
    /// The joint that the form describes.
    pub open spec fn joint(self) -> Joint {
        Joint {
            id: self.id as i32,
            drive_mode: self.drive_mode,
            homing_offset: self.homing_offset,
            range_min: self.range_min,
            range_max: self.range_max,
        }
    }

    /// The changes that make a joint what the form describes: every field is replaced.
    pub open spec fn patch(self) -> PatchJoint {
        PatchJoint {
            id: Some(self.id as i32),
            drive_mode: Some(self.drive_mode),
            homing_offset: Some(self.homing_offset),
            range_min: Some(self.range_min),
            range_max: Some(self.range_max),
        }
    }

    /// The joint that the form describes.
    pub fn to_joint(&self) -> (r: Joint)
        ensures
            r == self.joint(),
    {
        Joint {
            id: self.id as i32,
            drive_mode: self.drive_mode,
            homing_offset: self.homing_offset,
            range_min: self.range_min,
            range_max: self.range_max,
        }
    }

    /// The changes that make a joint what the form describes.
    pub fn to_patch(&self) -> (r: PatchJoint)
        ensures
            r == self.patch(),
    {
        PatchJoint {
            id: Some(self.id as i32),
            drive_mode: Some(self.drive_mode),
            homing_offset: Some(self.homing_offset),
            range_min: Some(self.range_min),
            range_max: Some(self.range_max),
        }
    }
}

/// Whether `page` is the bare page of an arm: no picture and no buttons,
/// only what the caller sees of the update that went wrong.
pub open spec fn is_bare_arm_page(page: ArmPage, kind: Seq<char>, name: Seq<char>, read_only: bool) -> bool {
    &&& page.title@ == "Arm"@
    &&& page.kind@ == kind
    &&& page.name@ == name
    &&& page.label_prefix@ == Seq::<char>::empty()
    &&& page.message is None
    &&& page.hotspots@.len() == 0
    &&& page.robots_btns@.len() == 0
    &&& page.leaders_btns@.len() == 0
    &&& page.read_only == read_only
}

/// Whether `page` reports an update that failed before its joint was known.
pub open spec fn is_arm_failure(page: ArmPage, kind: Seq<char>, name: Seq<char>, error: Seq<char>, read_only: bool) -> bool {
    &&& is_bare_arm_page(page, kind, name, read_only)
    &&& page.selected is None
    &&& !page.has_selection
    &&& page.selected_n == 0
    &&& shows_no_joint(page)
    &&& has_error(page, Some(error))
}

/// Whether `page` reports an update of the joint `joint` that failed: it
/// shows the joint with the fields that the form brought.
pub open spec fn is_arm_rejection(
    page: ArmPage,
    kind: Seq<char>,
    name: Seq<char>,
    joint: Seq<char>,
    form: ArmForm,
    error: Seq<char>,
    read_only: bool,
) -> bool {
    &&& is_bare_arm_page(page, kind, name, read_only)
    &&& page.selected == Some(form.id)
    &&& page.has_selection
    &&& page.selected_n == form.id
    &&& shows_joint(page, joint, form.joint())
    &&& has_error(page, Some(error))
}

/// The page for an update that failed before its joint was known.
fn bare_arm_page(kind: &str, name: &str, error: String, read_only: bool) -> (r: ArmPage)
    ensures
        is_arm_failure(r, kind@, name@, error@, read_only),
{
    ArmPage {
        title: "Arm".to_string(),
        kind: kind.to_owned(),
        name: name.to_owned(),
        label_prefix: String::new(),
        selected: None,
        has_selection: false,
        joint_name: None,
        has_joint: false,
        joint_label: String::new(),
        selected_n: 0,
        id_v: 0,
        drive_mode_v: 0,
        homing_offset_v: 0,
        range_min_v: 0,
        range_max_v: 0,
        error: Some(error),
        message: None,
        hotspots: Vec::new(),
        robots_btns: Vec::new(),
        leaders_btns: Vec::new(),
        read_only,
    }
}

/// The page for an update of a joint that failed.
fn rejected_arm_page(kind: &str, name: &str, joint: &str, form: &ArmForm, error: String, read_only: bool) -> (r: ArmPage)
    ensures
        is_arm_rejection(r, kind@, name@, joint@, *form, error@, read_only),
{
    let mut page = bare_arm_page(kind, name, error, read_only);
    page.selected = Some(form.id);
    page.has_selection = true;
    page.joint_name = Some(joint.to_owned());
    page.has_joint = true;
    page.joint_label = joint.to_owned();
    page.selected_n = form.id;
    page.id_v = form.id as i32;
    page.drive_mode_v = form.drive_mode;
    page.homing_offset_v = form.homing_offset;
    page.range_min_v = form.range_min;
    page.range_max_v = form.range_max;
    page
}

/// What the page of an arm does with a form that was sent to it.
#[derive(Debug, Clone, PartialEq)]
pub enum ArmUpdate {
    /// Nothing: the form is answered with a page that says why.
    Reject(ArmPage),
    /// Send these changes of the joint to the API at this address.
    Remote { url: String, joint: String, patch: PatchJoint },
    /// Write the profile, in which the joint is what the form describes, as
    /// the plan says.
    Write { joint: String, profile: Profile, plan: WritePlan },
}

/// Decides what to do with the form of an arm's page. `read` is what the
/// store made of the profile. The form speaks of the first joint whose id is
/// the form's; a profile that could not be read, or that has no such joint,
/// ends the matter. Where the server knows its own address the changes are
/// passed on to its API. Else every field of the joint is replaced and the
/// profile is written with a backup, if the store accepts it.
pub fn update_arm(
    store: &Store,
    base_url: Option<&str>,
    kind: &str,
    name: &str,
    read: Result<Profile, StoreError>,
    form: &ArmForm,
    read_only: bool,
) -> (r: ArmUpdate)
    ensures
        match read {
            Err(e) => r matches ArmUpdate::Reject(page) && is_arm_failure(
                page,
                kind@,
                name@,
                e@.text(),
                read_only,
            ),
            Ok(p) => {
                ||| r matches ArmUpdate::Reject(page) && none_with_id(p, form.id as int) && is_arm_failure(
                    page,
                    kind@,
                    name@,
                    "invalid id"@,
                    read_only,
                )
                ||| exists|i: int|
                    first_with_id(p, form.id as int, i) && is_arm_update(
                        r,
                        *store,
                        base_url,
                        kind@,
                        name@,
                        p,
                        p.0.keys()[i],
                        *form,
                        read_only,
                    )
            },
        },
{
    let p = match read {
        Ok(p) => p,
        Err(e) => {
            return ArmUpdate::Reject(bare_arm_page(kind, name, e.message(), read_only));
        },
    };
    let i = match joint_with_id(&p, form.id as i32) {
        Some(i) => i,
        None => {
            return ArmUpdate::Reject(bare_arm_page(kind, name, "invalid id".to_string(), read_only));
        },
    };
    let joint = p.0.name_at(i).clone();
    let ghost before = p;
    match base_url {
        Some(base) => ArmUpdate::Remote { url: api_url(base, kind, name), joint, patch: form.to_patch() },
        None => {
            let mut changed = p;
            changed.0.insert(joint.clone(), form.to_joint());
            match store.write_profile(store_kind(kind), name, &changed, true) {
                Ok(plan) => ArmUpdate::Write { joint, profile: changed, plan },
                Err(e) => ArmUpdate::Reject(
                    rejected_arm_page(kind, name, joint.as_str(), form, e.message(), read_only),
                ),
            }
        },
    }
}

/// Whether `update` is what becomes of a form that speaks of the joint
/// `joint` of the profile `p`.
pub open spec fn is_arm_update(
    update: ArmUpdate,
    store: Store,
    base_url: Option<&str>,
    kind: Seq<char>,
    name: Seq<char>,
    p: Profile,
    joint: Seq<char>,
    form: ArmForm,
    read_only: bool,
) -> bool {
    match base_url {
        Some(base) => update matches ArmUpdate::Remote { url, joint: j, patch } && url@ == api_address(
            base@,
            kind,
            name,
        ) && j@ == joint && patch == form.patch(),
        None => {
            let joints = p@.insert(joint, form.joint());
            if crate::model::all_valid(joints) {
                update matches ArmUpdate::Write { joint: j, profile, plan } && j@ == joint && profile@
                    == joints && profile.0.keys() == p.0.keys() && plan@ == store.write_plan(
                    arm_kind(kind),
                    name,
                    true,
                )
            } else {
                update matches ArmUpdate::Reject(page) && is_arm_rejection(
                    page,
                    kind,
                    name,
                    joint,
                    form,
                    StoreErrorView::Validation(crate::model::fault_in(p.0.keys(), joints)).text(),
                    read_only,
                )
            }
        },
    }
}

/// What the page of an arm answers: another address to go to, or itself.
#[derive(Debug, Clone, PartialEq, Eq)]
pub enum ArmReply {
    Redirect(String),
    Page(ArmPage),
}

/// The answer to a form after its changes were sent to the API: the arm's
/// page afresh, with the joint selected, once they are made, else a page
/// with the fields that the form brought and the reason.
pub fn after_remote_patch(
    kind: &str,
    name: &str,
    joint: &str,
    form: &ArmForm,
    answer: Remote,
    read_only: bool,
) -> (r: ArmReply)
    ensures
        match remote_fault("update"@, answer) {
            None => r matches ArmReply::Redirect(to) && to@ == arm_address(kind@, name@, form.id),
            Some(msg) => r matches ArmReply::Page(page) && is_arm_rejection(
                page,
                kind@,
                name@,
                joint@,
                *form,
                msg,
                read_only,
            ),
        },
{
    match remote_error("update", &answer) {
        None => ArmReply::Redirect(arm_url(kind, name, form.id)),
        Some(msg) => ArmReply::Page(rejected_arm_page(kind, name, joint, form, msg, read_only)),
    }
}

/// The answer to a form after the profile was to be written to the store.
pub fn after_arm_write(
    kind: &str,
    name: &str,
    joint: &str,
    form: &ArmForm,
    outcome: Result<(), StoreError>,
    read_only: bool,
) -> (r: ArmReply)
    ensures
        match outcome {
            Ok(_) => r matches ArmReply::Redirect(to) && to@ == arm_address(kind@, name@, form.id),
            Err(e) => r matches ArmReply::Page(page) && is_arm_rejection(
                page,
                kind@,
                name@,
                joint@,
                *form,
                e@.text(),
                read_only,
            ),
        },
{
    match outcome {
        Ok(_) => ArmReply::Redirect(arm_url(kind, name, form.id)),
        Err(e) => ArmReply::Page(rejected_arm_page(kind, name, joint, form, e.message(), read_only)),
    }
}

} // verus!
