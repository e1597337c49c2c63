//! What the HTTP API decides: how a request names a kind, what each request
//! to read, create, replace, patch or delete a profile comes to, and how a
//! failure is reported.

use std::sync::Arc;
use vstd::prelude::*;
use crate::model::{all_valid, fault_in, Joint, Profile};
use crate::names::NameMap;
use crate::store::{
    read_outcome, Kind, ProfileMeta, Store, StoreError, StoreErrorView, WritePlan, WritePlanView,
};

verus! {

/// What the handlers of one server share.
#[derive(Clone)]
pub struct AppState {
    pub store: Arc<Store>,
    pub base_url: Option<String>,
    pub read_only: bool,
}

/// The status of a request that was understood and refused.
pub const BAD_REQUEST: u16 = 400;

/// The status of a request for something that is not there.
pub const NOT_FOUND: u16 = 404;

/// The status of a request that failed on the server's side.
pub const INTERNAL_SERVER_ERROR: u16 = 500;

/// What an error says beyond its message.
#[derive(Debug, Clone, PartialEq, Eq)]
pub enum Details {
    /// The kind that was asked for and is none.
    Kind(String),
    /// The cause as text.
    Error(String),
    /// A joint and what is wrong with it.
    Joint { joint: String, error: String },
    /// The name of a joint that the profile does not hold.
    Name(String),
}

/// [`Details`] as text.
pub enum DetailsView {
    Kind(Seq<char>),
    Error(Seq<char>),
    Joint { joint: Seq<char>, error: Seq<char> },
    Name(Seq<char>),
}

impl View for Details {
    type V = DetailsView;

    open spec fn view(&self) -> DetailsView {
        match self {
            Details::Kind(kind) => DetailsView::Kind(kind@),
            Details::Error(cause) => DetailsView::Error(cause@),
            Details::Joint { joint, error } => DetailsView::Joint { joint: joint@, error: error@ },
            Details::Name(name) => DetailsView::Name(name@),
        }
    }
}

/// An error as the API reports it.
#[derive(Debug, Clone, PartialEq, Eq)]
pub struct ApiError {
    pub status: u16,
    pub message: String,
    pub details: Option<Details>,
}

/// [`ApiError`] as text.
pub struct ApiErrorView {
    pub status: u16,
    pub message: Seq<char>,
    pub details: Option<DetailsView>,
}

impl View for ApiError {
    type V = ApiErrorView;

    open spec fn view(&self) -> ApiErrorView {
        ApiErrorView {
            status: self.status,
            message: self.message@,
            details: match self.details {
                Some(d) => Some(d@),
                None => None,
            },
        }
    }
}

/// How an error of the store is reported: what is missing is not found, what
/// is not valid or cannot be parsed is a bad request, and a failure of the
/// file system is the server's.
pub open spec fn store_failure(e: StoreErrorView) -> ApiErrorView {
    match e {
        StoreErrorView::NotFound(what) => ApiErrorView { status: NOT_FOUND, message: what, details: None },
        StoreErrorView::Validation(cause) => ApiErrorView {
            status: BAD_REQUEST,
            message: cause,
            details: None,
        },
        StoreErrorView::Json(cause) => ApiErrorView {
            status: BAD_REQUEST,
            message: "invalid json"@,
            details: Some(DetailsView::Error(cause)),
        },
        StoreErrorView::Io(cause) => ApiErrorView {
            status: INTERNAL_SERVER_ERROR,
            message: "io error"@,
            details: Some(DetailsView::Error(cause)),
        },
    }
}

impl ApiError {
    /// An error of the store as the API reports it.
    pub fn from_store(e: StoreError) -> (r: ApiError)
        ensures
            r@ == store_failure(e@),
    {
        match e {
            StoreError::NotFound(what) => ApiError { status: NOT_FOUND, message: what, details: None },
            StoreError::Validation(cause) => ApiError {
                status: BAD_REQUEST,
                message: cause,
                details: None,
            },
            StoreError::Json(cause) => ApiError {
                status: BAD_REQUEST,
                message: "invalid json".to_string(),
                details: Some(Details::Error(cause)),
            },
            StoreError::Io(cause) => ApiError {
                status: INTERNAL_SERVER_ERROR,
                message: "io error".to_string(),
                details: Some(Details::Error(cause)),
            },
        }
    }

    /// The error for a request that is refused as it stands.
    pub fn bad_request(msg: &str, details: Option<Details>) -> (r: ApiError)
        ensures
            r.status == BAD_REQUEST,
            r.message@ == msg@,
            r.details == details,
    {
        ApiError { status: BAD_REQUEST, message: msg.to_owned(), details }
    }
}

/// A kind as a request names it.
#[derive(Debug, Clone, Copy)]
pub struct KindParam(pub Kind);

/// The error for a kind that is none.
pub open spec fn invalid_kind(s: Seq<char>) -> ApiErrorView {
    ApiErrorView {
        status: BAD_REQUEST,
        message: "invalid kind"@,
        details: Some(DetailsView::Kind(s)),
    }
}

impl KindParam {
    /// Reads a kind: `robots` and `teleoperators` are the two there are.
    pub fn parse(s: &str) -> (r: Result<KindParam, ApiError>)
        ensures
            match Kind::named(s@) {
                Some(kind) => r matches Ok(k) && k.0 == kind,
                None => r matches Err(e) && e@ == invalid_kind(s@),
            },
    {
        match Kind::from_name(s) {
            Some(kind) => Ok(KindParam(kind)),
            None => Err(ApiError::bad_request("invalid kind", Some(Details::Kind(s.to_owned())))),
        }
    }
}

impl std::str::FromStr for KindParam {
    type Err = ApiError;

    /// Reads a kind, as [`KindParam::parse`] does.
    fn from_str(s: &str) -> (r: Result<KindParam, ApiError>)
        ensures
            match Kind::named(s@) {
                Some(kind) => r matches Ok(k) && k.0 == kind,
                None => r matches Err(e) && e@ == invalid_kind(s@),
            },
    {
        KindParam::parse(s)
    }
}

/// The names of a listing, in its order.
pub fn list_profiles(metas: &Vec<ProfileMeta>) -> (r: Vec<String>)
    ensures
        r@.len() == metas@.len(),
        forall|i: int| 0 <= i < r@.len() ==> (#[trigger] r@[i])@ == metas@[i].name@,
{
    let mut items: Vec<String> = Vec::new();
    let mut i: usize = 0;
    while i < metas.len()
        invariant
            i <= metas@.len(),
            items@.len() == i,
            forall|k: int| 0 <= k < i ==> (#[trigger] items@[k])@ == metas@[k].name@,
        decreases metas@.len() - i,
    {
        items.push(metas[i].name.clone());
        i += 1;
    }
    items
}

/// Answers a request for a profile from what the store found: the profile,
/// or the store's error as the API reports it.
pub fn get_profile(kind: Kind, name: &str, found: Option<Result<Profile, StoreError>>) -> (r: Result<
    Profile,
    ApiError,
>)
    ensures
        match read_outcome(kind, name@, found) {
            Ok(p) => r == Ok::<Profile, ApiError>(p),
            Err(cause) => r matches Err(e) && e@ == store_failure(cause),
        },
{
    match Store::read_profile(kind, name, found) {
        Ok(p) => Ok(p),
        Err(e) => Err(ApiError::from_store(e)),
    }
}

/// Plans the replacement of a profile by `body`, with a backup of what it
/// replaces.
pub fn put_profile(store: &Store, kind: Kind, name: &str, body: &Profile) -> (r: Result<WritePlan, ApiError>)
    ensures
        match store.write_outcome(kind, name@, *body, true) {
            Ok(plan) => r matches Ok(p) && p@ == plan,
            Err(cause) => r matches Err(e) && e@ == store_failure(cause),
        },
{
    match store.write_profile(kind, name, body, true) {
        Ok(plan) => Ok(plan),
        Err(e) => Err(ApiError::from_store(e)),
    }
}

/// Plans the creation of a profile: what the request brings is stored, or an
/// empty profile where it brings none. Nothing is backed up.
pub fn create_profile(store: &Store, kind: Kind, name: &str, profile: Option<Profile>) -> (r: Result<
    (Profile, WritePlan),
    ApiError,
>)
    ensures
        match profile {
            Some(given) => match store.write_outcome(kind, name@, given, false) {
                Ok(plan) => r matches Ok(made) && made.0 == given && made.1@ == plan,
                Err(cause) => r matches Err(e) && e@ == store_failure(cause),
            },
            None => r matches Ok(made) && made.0@ == Map::<Seq<char>, Joint>::empty() && made.1@
                == store.write_plan(kind, name@, false),
        },
{
    let profile = match profile {
        Some(given) => given,
        None => Profile(NameMap::new()),
    };
    match store.write_profile(kind, name, &profile, false) {
        Ok(plan) => Ok((profile, plan)),
        Err(e) => Err(ApiError::from_store(e)),
    }
}

/// Decides the deletion of a profile, given whether its canonical file
/// exists: the file to remove, or the store's error as the API reports it.
pub fn delete_profile(store: &Store, kind: Kind, name: &str, present: bool) -> (r: Result<String, ApiError>)
    ensures
        match store.delete_outcome(kind, name@, present) {
            Ok(path) => r matches Ok(p) && p@ == path,
            Err(cause) => r matches Err(e) && e@ == store_failure(cause),
        },
{
    match store.delete_profile(kind, name, present) {
        Ok(path) => Ok(path),
        Err(e) => Err(ApiError::from_store(e)),
    }
}

/// Changes to one joint. A field that is present replaces the joint's; one
/// that is absent leaves it as it is.
#[derive(Debug, Clone, Copy, PartialEq, Eq)]
pub struct PatchJoint {
    pub id: Option<i32>,
    pub drive_mode: Option<i32>,
    pub homing_offset: Option<i32>,
    pub range_min: Option<i32>,
    pub range_max: Option<i32>,
}

/// The value of a field after a change that may be absent.
pub open spec fn replaced(change: Option<i32>, before: i32) -> i32 {
    match change {
        Some(v) => v,
        None => before,
    }
}

impl PatchJoint {
    /// The joint that the changes make of `joint`.
    pub open spec fn applied(self, joint: Joint) -> Joint {
        Joint {
            id: replaced(self.id, joint.id),
            drive_mode: replaced(self.drive_mode, joint.drive_mode),
            homing_offset: replaced(self.homing_offset, joint.homing_offset),
            range_min: replaced(self.range_min, joint.range_min),
            range_max: replaced(self.range_max, joint.range_max),
        }
    }

    /// Makes the changes to a joint.
    pub fn apply(&self, joint: Joint) -> (r: Joint)
        ensures
            r == self.applied(joint),
    {
        let mut j = joint;
        if let Some(v) = self.id {
            j.id = v;
        }
        if let Some(v) = self.drive_mode {
            j.drive_mode = v;
        }
        if let Some(v) = self.homing_offset {
            j.homing_offset = v;
        }
        if let Some(v) = self.range_min {
            j.range_min = v;
        }
        if let Some(v) = self.range_max {
            j.range_max = v;
        }
        j
    }
}

/// Changes to the joints of a profile, by the joint's name.
pub type PatchBody = NameMap<PatchJoint>;

/// Whether the changes `change` can be made to the joint `name` of
/// `current`: the joint is there, and what becomes of it is valid.
pub open spec fn applies(current: Map<Seq<char>, Joint>, name: Seq<char>, change: PatchJoint) -> bool {
    current.contains_key(name) && change.applied(current[name]).valid()
}

/// The error for changes that cannot be made: the joint is unknown, or what
/// would become of it is not valid.
pub open spec fn refusal(current: Map<Seq<char>, Joint>, name: Seq<char>, change: PatchJoint) -> ApiErrorView {
    if !current.contains_key(name) {
        ApiErrorView {
            status: BAD_REQUEST,
            message: "unknown joint"@,
            details: Some(DetailsView::Name(name)),
        }
    } else {
        ApiErrorView {
            status: BAD_REQUEST,
            message: "invalid joint"@,
            details: Some(
                DetailsView::Joint { joint: name, error: change.applied(current[name]).fault() },
            ),
        }
    }
}

/// Whether entry `i` of the patch, in insertion order, is the first whose
/// changes cannot be made.
pub open spec fn first_refusal_at(current: Map<Seq<char>, Joint>, patch: PatchBody, i: int) -> bool {
    &&& 0 <= i < patch.keys().len()
    &&& !applies(current, patch.keys()[i], patch.vals()[i])
    &&& forall|j: int| 0 <= j < i ==> applies(current, #[trigger] patch.keys()[j], patch.vals()[j])
}

/// The joints of `current` with every change of `patch` made.
pub open spec fn merged(current: Map<Seq<char>, Joint>, patch: Map<Seq<char>, PatchJoint>) -> Map<
    Seq<char>,
    Joint,
> {
    Map::new(
        |name: Seq<char>| current.contains_key(name),
        |name: Seq<char>|
            if patch.contains_key(name) {
                patch[name].applied(current[name])
            } else {
                current[name]
            },
    )
}

/// What becomes of a patch: all of its changes are made, or none is and the
/// first entry that stands in the way is reported.
pub open spec fn patch_outcome(current: Map<Seq<char>, Joint>, patch: PatchBody) -> Result<
    Map<Seq<char>, Joint>,
    ApiErrorView,
> {
    if exists|i: int| first_refusal_at(current, patch, i) {
        let i = choose|i: int| first_refusal_at(current, patch, i);
        Err(refusal(current, patch.keys()[i], patch.vals()[i]))
    } else {
        Ok(merged(current, patch@))
    }
}

/// Makes the changes of `patch` to a copy of `current`. The profile comes
/// back only if every change could be made; its names keep their order.
pub fn merge_patch(current: &Profile, patch: &PatchBody) -> (r: Result<Profile, ApiError>)
    ensures
        match r {
            Ok(p) => patch_outcome(current@, *patch) == Ok::<Map<Seq<char>, Joint>, ApiErrorView>(p@)
                && p.0.keys() == current.0.keys(),
            Err(e) => patch_outcome(current@, *patch) == Err::<Map<Seq<char>, Joint>, ApiErrorView>(
                e@,
            ),
        },
{
    proof {
        use_type_invariant(patch);
        use_type_invariant(&current.0);
    }
    let mut working = current.clone();
    let n = patch.len();
    let mut i: usize = 0;
    while i < n
        invariant
            n == patch.keys().len(),
            patch.wf(),
            i <= n,
            working.0.keys() == current.0.keys(),
            working@.dom() == current@.dom(),
            forall|j: int| 0 <= j < i ==> applies(current@, #[trigger] patch.keys()[j], patch.vals()[j]),
            forall|name: Seq<char>| #[trigger]
                current@.contains_key(name) ==> working@[name] == if patch.keys().take(
                    i as int,
                ).contains(name) {
                    patch@[name].applied(current@[name])
                } else {
                    current@[name]
                },
        decreases n - i,
    {
        let name = patch.name_at(i);
        let change = patch.value_at(i);
        proof {
            patch.lemma_view_at(i as int);
            if patch.keys().take(i as int).contains(name@) {
                let j = patch.keys().take(i as int).index_of(name@);
                assert(patch.keys()[j] == name@);
            }
        }
        match working.0.get(name.as_str()) {
            Some(joint) => {
                let next = change.apply(*joint);
                match next.validate() {
                    Ok(()) => {
                        let ghost before = working@;
                        working.0.insert(name.clone(), next);
                        proof {
                            assert(working@.dom() =~= before.dom());
                            assert forall|other: Seq<char>| #[trigger]
                                current@.contains_key(other) implies working@[other] == if patch.keys().take(
                                i + 1,
                            ).contains(other) {
                                patch@[other].applied(current@[other])
                            } else {
                                current@[other]
                            } by {
                                let sooner = patch.keys().take(i as int);
                                let now = patch.keys().take(i + 1);
                                assert(now =~= sooner.push(name@));
                                if other == name@ {
                                    assert(now[i as int] == other);
                                } else {
                                    if sooner.contains(other) {
                                        let j = sooner.index_of(other);
                                        assert(now[j] == other);
                                    }
                                    if now.contains(other) {
                                        let j = now.index_of(other);
                                        assert(sooner[j] == other);
                                    }
                                }
                            }
                        }
                    },
                    Err(cause) => {
                        let e = ApiError::bad_request(
                            "invalid joint",
                            Some(Details::Joint { joint: name.clone(), error: cause }),
                        );
                        proof {
                            lemma_refusal(current@, *patch, i as int);
                        }
                        return Err(e);
                    },
                }
            },
            None => {
                let e = ApiError::bad_request("unknown joint", Some(Details::Name(name.clone())));
                proof {
                    lemma_refusal(current@, *patch, i as int);
                }
                return Err(e);
            },
        }
        i += 1;
    }
    proof {
        assert(patch.keys().take(n as int) =~= patch.keys());
        assert(!exists|k: int| first_refusal_at(current@, *patch, k));
        assert(working@ =~= merged(current@, patch@));
    }
    Ok(working)
}

/// What becomes of a request to patch the profile `current`: the changed
/// profile and the plan for writing it with a backup, or the error for the
/// first change that cannot be made. Nothing is planned unless every change
/// was made.
pub open spec fn patch_plan_outcome(
    store: Store,
    kind: Kind,
    name: Seq<char>,
    current: Profile,
    patch: PatchBody,
) -> Result<(Map<Seq<char>, Joint>, WritePlanView), ApiErrorView> {
    match patch_outcome(current@, patch) {
        Err(e) => Err(e),
        Ok(joints) => if all_valid(joints) {
            Ok((joints, store.write_plan(kind, name, true)))
        } else {
            Err(store_failure(StoreErrorView::Validation(fault_in(current.0.keys(), joints))))
        },
    }
}

/// Plans a partial update of the profile `current`, which the store read:
/// the changed profile and the plan for writing it with a backup.
pub fn patch_profile(store: &Store, kind: Kind, name: &str, current: &Profile, patch: &PatchBody) -> (r: Result<
    (Profile, WritePlan),
    ApiError,
>)
    ensures
        match r {
            Ok(made) => patch_plan_outcome(*store, kind, name@, *current, *patch) == Ok::<
                (Map<Seq<char>, Joint>, WritePlanView),
                ApiErrorView,
            >((made.0@, made.1@)) && made.0.0.keys() == current.0.keys(),
            Err(e) => patch_plan_outcome(*store, kind, name@, *current, *patch) == Err::<
                (Map<Seq<char>, Joint>, WritePlanView),
                ApiErrorView,
            >(e@),
        },
{
    let changed = match merge_patch(current, patch) {
        Ok(changed) => changed,
        Err(e) => {
            return Err(e);
        },
    };
    match store.write_profile(kind, name, &changed, true) {
        Ok(plan) => Ok((changed, plan)),
        Err(e) => Err(ApiError::from_store(e)),
    }
}

/// At most one entry is the first whose changes cannot be made, so where
/// there is one the outcome reports it.
pub proof fn lemma_refusal(current: Map<Seq<char>, Joint>, patch: PatchBody, i: int)
    requires
        first_refusal_at(current, patch, i),
    ensures
        patch_outcome(current, patch) == Err::<Map<Seq<char>, Joint>, ApiErrorView>(
            refusal(current, patch.keys()[i], patch.vals()[i]),
        ),
{
    let c = choose|c: int| first_refusal_at(current, patch, c);
    if c < i {
        assert(applies(current, patch.keys()[c], patch.vals()[c]));
    }
    if i < c {
        assert(applies(current, patch.keys()[i], patch.vals()[i]));
    }
}

} // verus!
