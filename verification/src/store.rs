//! The profile store: where each profile lives, what a walk through a
//! directory shows of it, and which operations on files store or delete it.
//! The store plans and decides; it leaves the files to its caller.

use vstd::prelude::*;
use crate::model::Profile;
use crate::paths::{extension_of, file_stem, has_extension, join, joined, stem_of};
use crate::text::{
    concat_text, lemma_name_le_total, lemma_name_le_transitive, name_le, same_text, text_le,
};

verus! {

/// The two kinds of device. Each kind has a directory of its own.
#[derive(Debug, Clone, Copy, PartialEq, Eq, Structural)]
pub enum Kind {
    Robots,
    Teleoperators,
}

impl Kind {
    /// The name of the kind, which is also the name of its directory.
    pub open spec fn name(self) -> Seq<char> {
        match self {
            Kind::Robots => "robots"@,
            Kind::Teleoperators => "teleoperators"@,
        }
    }

    /// The kind that bears a name, if one does.
    pub open spec fn named(name: Seq<char>) -> Option<Kind> {
        if name == "robots"@ {
            Some(Kind::Robots)
        } else if name == "teleoperators"@ {
            Some(Kind::Teleoperators)
        } else {
            None
        }
    }

    /// The name of the kind.
    pub fn as_str(&self) -> (r: &'static str)
        ensures
            r@ == self.name(),
    {
        match self {
            Kind::Robots => "robots",
            Kind::Teleoperators => "teleoperators",
        }
    }

    /// The kind that bears the name `name`, if one does.
    pub fn from_name(name: &str) -> (r: Option<Kind>)
        ensures
            r == Kind::named(name@),
    {
        if same_text(name, "robots") {
            Some(Kind::Robots)
        } else if same_text(name, "teleoperators") {
            Some(Kind::Teleoperators)
        } else {
            None
        }
    }
}

/// Why an operation of the store failed.
#[derive(Debug, Clone, PartialEq, Eq)]
pub enum StoreError {
    /// The file system refused an operation; the text is its reason.
    Io(String),
    /// A stored profile could not be parsed; the text is the parser's reason.
    Json(String),
    /// A profile holds a joint that is not valid.
    Validation(String),
    /// No profile of that kind and name is stored.
    NotFound(String),
}

/// [`StoreError`] as text.
pub enum StoreErrorView {
    Io(Seq<char>),
    Json(Seq<char>),
    Validation(Seq<char>),
    NotFound(Seq<char>),
}

impl View for StoreError {
    type V = StoreErrorView;

    open spec fn view(&self) -> StoreErrorView {
        match self {
            StoreError::Io(cause) => StoreErrorView::Io(cause@),
            StoreError::Json(cause) => StoreErrorView::Json(cause@),
            StoreError::Validation(cause) => StoreErrorView::Validation(cause@),
            StoreError::NotFound(what) => StoreErrorView::NotFound(what@),
        }
    }
}

impl StoreErrorView {
    /// The error as one line of text.
    pub open spec fn text(self) -> Seq<char> {
        match self {
            StoreErrorView::Io(cause) => "io error: "@ + cause,
            StoreErrorView::Json(cause) => "json error: "@ + cause,
            StoreErrorView::Validation(cause) => "validation error: "@ + cause,
            StoreErrorView::NotFound(what) => "not found: "@ + what,
        }
    }
}

impl StoreError {
    /// The error as one line of text.
    pub fn message(&self) -> (r: String)
        ensures
            r@ == self@.text(),
    {
        match self {
            StoreError::Io(cause) => concat_text("io error: ", cause.as_str()),
            StoreError::Json(cause) => concat_text("json error: ", cause.as_str()),
            StoreError::Validation(cause) => concat_text("validation error: ", cause.as_str()),
            StoreError::NotFound(what) => concat_text("not found: ", what.as_str()),
        }
    }
}

/// How a missing profile is named in an error: the kind, a colon, the name.
pub open spec fn profile_label(kind: Kind, name: Seq<char>) -> Seq<char> {
    kind.name() + ":"@ + name
}

/// The file name of the profile `name`.
pub open spec fn profile_file(name: Seq<char>) -> Seq<char> {
    name + ".json"@
}

/// The file name under which the profile `name` is written before it is moved into place.
pub open spec fn temp_file(name: Seq<char>) -> Seq<char> {
    name + ".json.tmp"@
}

/// The file name of the backup of the profile `name`.
pub open spec fn backup_file(name: Seq<char>) -> Seq<char> {
    name + ".json.bak"@
}

/// How a missing profile is named in an error.
fn label_of(kind: Kind, name: &str) -> (r: String)
    ensures
        r@ == profile_label(kind, name@),
{
    let head = concat_text(kind.as_str(), ":");
    concat_text(head.as_str(), name)
}

/// One profile of a listing.
#[derive(Debug, Clone, PartialEq, Eq)]
pub struct ProfileMeta {
    pub name: String,
    pub path: String,
}

/// A listed profile as text.
pub struct MetaView {
    pub name: Seq<char>,
    pub path: Seq<char>,
}

impl View for ProfileMeta {
    type V = MetaView;

    open spec fn view(&self) -> MetaView {
        MetaView { name: self.name@, path: self.path@ }
    }
}

/// One entry that a walk through a kind's directory came upon.
#[derive(Debug, Clone, PartialEq, Eq)]
pub struct ScanEntry {
    /// The path of the entry.
    pub path: String,
    /// The last component of the path, where it has one that is text.
    pub file_name: Option<String>,
    /// Whether the entry is a regular file.
    pub is_file: bool,
}

impl ScanEntry {
    /// The profile that the entry stores: a regular file whose extension is
    /// `json` stores the profile named by its stem.
    pub open spec fn meta(self) -> Option<MetaView> {
        match self.file_name {
            Some(file) => if self.is_file && extension_of(file@) == Some("json"@) {
                Some(MetaView { name: stem_of(file@), path: self.path@ })
            } else {
                None
            },
            None => None,
        }
    }

    /// The profile that the entry stores, if it stores one.
    pub fn profile(&self) -> (r: Option<ProfileMeta>)
        ensures
            match r {
                Some(m) => self.meta() == Some(m@),
                None => self.meta() is None,
            },
    {
        if !self.is_file {
            return None;
        }
        match &self.file_name {
            Some(file) => {
                if has_extension(file.as_str(), "json") {
                    Some(ProfileMeta { name: file_stem(file.as_str()), path: self.path.clone() })
                } else {
                    None
                }
            },
            None => None,
        }
    }
}

/// The profiles that a walk came upon, in the order of the walk.
pub open spec fn scanned(entries: Seq<ScanEntry>) -> Seq<MetaView> {
    entries.filter_map(|e: ScanEntry| e.meta())
}

/// Those of `metas` that bear the name `name`, in their order.
pub open spec fn named(metas: Seq<MetaView>, name: Seq<char>) -> Seq<MetaView> {
    metas.filter(|m: MetaView| m.name == name)
}

/// Whether the names never go down along `metas`.
pub open spec fn sorted_by_name(metas: Seq<MetaView>) -> bool {
    forall|i: int, j: int| 0 <= i < j < metas.len() ==> name_le(metas[i].name, metas[j].name)
}

/// Whether `listed` is `found` sorted by name, with those of one name left in
/// the order that they have in `found`.
pub open spec fn is_listing_of(listed: Seq<MetaView>, found: Seq<MetaView>) -> bool {
    &&& sorted_by_name(listed)
    &&& forall|name: Seq<char>| #[trigger] named(listed, name) == named(found, name)
}

/// A listing as text.
pub open spec fn views(metas: Seq<ProfileMeta>) -> Seq<MetaView> {
    metas.map_values(|m: ProfileMeta| m@)
}

/// Whether an entry stores the profile `name`.
pub open spec fn stores(entry: ScanEntry, name: Seq<char>) -> bool {
    entry.meta() matches Some(m) && m.name == name
}

/// Whether entry `i` is the first that stores the profile `name`.
pub open spec fn first_stored_at(entries: Seq<ScanEntry>, name: Seq<char>, i: int) -> bool {
    &&& 0 <= i < entries.len()
    &&& stores(entries[i], name)
    &&& forall|j: int| 0 <= j < i ==> !stores(#[trigger] entries[j], name)
}

/// What has to be done on disk to store a profile.
#[derive(Debug, Clone, PartialEq, Eq)]
pub struct WritePlan {
    /// The directory of the kind, to be created with its parents where it is missing.
    pub dir: String,
    /// The canonical file of the profile.
    pub path: String,
    /// The file that takes the new content first and is then renamed to `path`.
    pub tmp: String,
    /// The file that takes a copy of the old content.
    pub bak: String,
    /// Whether the caller asked for a backup.
    pub backup: bool,
}

/// [`WritePlan`] as text.
pub struct WritePlanView {
    pub dir: Seq<char>,
    pub path: Seq<char>,
    pub tmp: Seq<char>,
    pub bak: Seq<char>,
    pub backup: bool,
}

impl View for WritePlan {
    type V = WritePlanView;

    open spec fn view(&self) -> WritePlanView {
        WritePlanView {
            dir: self.dir@,
            path: self.path@,
            tmp: self.tmp@,
            bak: self.bak@,
            backup: self.backup,
        }
    }
}

/// One operation on the file system.
#[derive(Debug, Clone, PartialEq, Eq)]
pub enum Step {
    /// Create the directory and its parents where they are missing.
    CreateDirAll { dir: String },
    /// Copy the content of one file to another.
    Copy { from: String, to: String },
    /// Create the file, write the new content to it and flush it to disk.
    WriteSynced { path: String },
    /// Rename one file to another, replacing that one.
    Rename { from: String, to: String },
}

/// [`Step`] as text.
pub enum StepView {
    CreateDirAll { dir: Seq<char> },
    Copy { from: Seq<char>, to: Seq<char> },
    WriteSynced { path: Seq<char> },
    Rename { from: Seq<char>, to: Seq<char> },
}

impl View for Step {
    type V = StepView;

    open spec fn view(&self) -> StepView {
        match self {
            Step::CreateDirAll { dir } => StepView::CreateDirAll { dir: dir@ },
            Step::Copy { from, to } => StepView::Copy { from: from@, to: to@ },
            Step::WriteSynced { path } => StepView::WriteSynced { path: path@ },
            Step::Rename { from, to } => StepView::Rename { from: from@, to: to@ },
        }
    }
}

/// Operations as text.
pub open spec fn step_views(steps: Seq<Step>) -> Seq<StepView> {
    steps.map_values(|s: Step| s@)
}

impl WritePlanView {
    /// Whether the old content is backed up, given whether the canonical file
    /// exists: only a file that is there is copied, and only on request.
    pub open spec fn backs_up(self, present: bool) -> bool {
        self.backup && present
    }

    /// The operations that store the new content, in their order: the
    /// directory is made, the old content is copied where it is backed up,
    /// the new content goes to the temporary file, and that file takes the
    /// canonical file's place in one move.
    pub open spec fn steps(self, present: bool) -> Seq<StepView> {
        let prepare = seq![StepView::CreateDirAll { dir: self.dir }];
        let save = if self.backs_up(present) {
            seq![StepView::Copy { from: self.path, to: self.bak }]
        } else {
            Seq::<StepView>::empty()
        };
        let replace = seq![
            StepView::WriteSynced { path: self.tmp },
            StepView::Rename { from: self.tmp, to: self.path },
        ];
        prepare + save + replace
    }
}

impl WritePlan {
    /// The operations to carry out, in their order, given whether the
    /// canonical file exists.
    pub fn steps(&self, present: bool) -> (r: Vec<Step>)
        ensures
            step_views(r@) == self@.steps(present),
    {
        let mut steps: Vec<Step> = Vec::new();
        steps.push(Step::CreateDirAll { dir: self.dir.clone() });
        if self.backup && present {
            steps.push(Step::Copy { from: self.path.clone(), to: self.bak.clone() });
        }
        steps.push(Step::WriteSynced { path: self.tmp.clone() });
        steps.push(Step::Rename { from: self.tmp.clone(), to: self.path.clone() });
        proof {
            assert(step_views(steps@) =~= self@.steps(present));
        }
        steps
    }
}

/// What becomes of a request to read. `found` is `None` where no entry
/// stores the profile, else what the file gave: the profile parsed from it,
/// or why it could not be read or parsed. Only a valid profile is handed out.
pub open spec fn read_outcome(kind: Kind, name: Seq<char>, found: Option<Result<Profile, StoreError>>) -> Result<
    Profile,
    StoreErrorView,
> {
    match found {
        None => Err(StoreErrorView::NotFound(profile_label(kind, name))),
        Some(Err(e)) => Err(e@),
        Some(Ok(p)) => if p.valid() {
            Ok(p)
        } else {
            Err(StoreErrorView::Validation(p.fault()))
        },
    }
}

/// The profiles below one root directory.
pub struct Store {
    root: String,
}

impl Store {
    /// The root directory.
    pub closed spec fn root(&self) -> Seq<char> {
        self.root@
    }

    /// The directory of a kind.
    pub open spec fn dir_of(&self, kind: Kind) -> Seq<char> {
        joined(self.root(), kind.name())
    }

    /// The canonical file of a profile.
    pub open spec fn path_of(&self, kind: Kind, name: Seq<char>) -> Seq<char> {
        joined(self.dir_of(kind), profile_file(name))
    }

    /// The plan for writing a profile.
    pub open spec fn write_plan(&self, kind: Kind, name: Seq<char>, backup: bool) -> WritePlanView {
        WritePlanView {
            dir: self.dir_of(kind),
            path: self.path_of(kind, name),
            tmp: joined(self.dir_of(kind), temp_file(name)),
            bak: joined(self.dir_of(kind), backup_file(name)),
            backup,
        }
    }

    /// What becomes of a request to write: a valid profile gets its plan,
    /// another is refused with its fault.
    pub open spec fn write_outcome(
        &self,
        kind: Kind,
        name: Seq<char>,
        profile: Profile,
        backup: bool,
    ) -> Result<WritePlanView, StoreErrorView> {
        if profile.valid() {
            Ok(self.write_plan(kind, name, backup))
        } else {
            Err(StoreErrorView::Validation(profile.fault()))
        }
    }

    /// What becomes of a request to delete, given whether the canonical file
    /// exists: the file to remove, or that there is none.
    pub open spec fn delete_outcome(&self, kind: Kind, name: Seq<char>, present: bool) -> Result<
        Seq<char>,
        StoreErrorView,
    > {
        if present {
            Ok(self.path_of(kind, name))
        } else {
            Err(StoreErrorView::NotFound(profile_label(kind, name)))
        }
    }

    /// The store of the profiles below `root`.
    pub fn new(root: String) -> (r: Self)
        ensures
            r.root() == root@,
    {
        Store { root }
    }

    /// The directory of a kind: the root with the kind's name adjoined.
    pub fn kind_dir(&self, kind: Kind) -> (r: String)
        ensures
            r@ == self.dir_of(kind),
    {
        join(self.root.as_str(), kind.as_str())
    }

    /// The canonical file of the profile `name`.
    pub fn profile_path(&self, kind: Kind, name: &str) -> (r: String)
        ensures
            r@ == self.path_of(kind, name@),
    {
        let dir = self.kind_dir(kind);
        let file = concat_text(name, ".json");
        join(dir.as_str(), file.as_str())
    }

    /// Lists the profiles of a kind from what a walk through its directory
    /// came upon, sorted by name. `None` stands for a directory that does not
    /// exist: then the listing is empty.
    pub fn list_profiles(scan: Option<&Vec<ScanEntry>>) -> (r: Result<Vec<ProfileMeta>, StoreError>)
        ensures
            r matches Ok(metas) && match scan {
                Some(entries) => is_listing_of(views(metas@), scanned(entries@)),
                None => metas@.len() == 0,
            },
    {
        let mut out: Vec<ProfileMeta> = Vec::new();
        let entries = match scan {
            Some(entries) => entries,
            None => {
                return Ok(out);
            },
        };
        let mut i: usize = 0;
        proof {
            assert(entries@.take(0) =~= Seq::<ScanEntry>::empty());
            assert forall|name: Seq<char>| #[trigger]
                named(views(out@), name) == named(scanned(entries@.take(0)), name) by {
                assert(views(out@) =~= scanned(entries@.take(0)));
            }
        }
        while i < entries.len()
            invariant
                i <= entries@.len(),
                is_listing_of(views(out@), scanned(entries@.take(i as int))),
            decreases entries@.len() - i,
        {
            let ghost before = views(out@);
            let ghost found = scanned(entries@.take(i as int));
            proof {
                let next = entries@.take(i + 1);
                assert(next.drop_last() =~= entries@.take(i as int));
                assert(next.last() == entries@[i as int]);
            }
            match entries[i].profile() {
                Some(m) => {
                    let mut p: usize = out.len();
                    while p > 0 && !text_le(out[p - 1].name.as_str(), m.name.as_str())
                        invariant
                            p <= out@.len(),
                            forall|j: int|
                                p <= j < out@.len() ==> !name_le((#[trigger] out@[j]).name@, m.name@),
                        decreases p,
                    {
                        p -= 1;
                    }
                    proof {
                        let after = before.insert(p as int, m@);
                        assert(scanned(entries@.take(i + 1)) =~= found.push(m@));
                        assert forall|a: int, b: int| 0 <= a < b < after.len() implies name_le(
                            after[a].name,
                            after[b].name,
                        ) by {
                            if b < p {
                            } else if b == p {
                                assert(name_le(before[p - 1].name, m@.name));
                                if a < p - 1 {
                                    lemma_name_le_transitive(
                                        before[a].name,
                                        before[p - 1].name,
                                        m@.name,
                                    );
                                }
                            } else if a == p {
                                assert(!name_le(out@[b - 1].name@, m.name@));
                                lemma_name_le_total(before[b - 1].name, m@.name);
                            } else if a < p {
                                assert(after[a] == before[a]);
                                assert(after[b] == before[b - 1]);
                            } else {
                                assert(after[a] == before[a - 1]);
                                assert(after[b] == before[b - 1]);
                            }
                        }
                        assert forall|j: int| p <= j < before.len() implies (#[trigger] before[j]).name
                            != m@.name by {
                            assert(!name_le(out@[j].name@, m.name@));
                            crate::text::lemma_lex_le_reflexive(vstd::utf8::encode_utf8(m@.name));
                        }
                        assert forall|name: Seq<char>| #[trigger]
                            named(after, name) == named(found.push(m@), name) by {
                            lemma_named_insert(before, p as int, m@, name);
                            lemma_named_push(found, m@, name);
                            assert(named(before, name) == named(found, name));
                        }
                    }
                    out.insert(p, m);
                    proof {
                        assert(views(out@) =~= before.insert(p as int, m@));
                    }
                },
                None => {
                    proof {
                        assert(scanned(entries@.take(i + 1)) =~= found);
                    }
                },
            }
            i += 1;
        }
        proof {
            assert(entries@.take(entries@.len() as int) =~= entries@);
        }
        Ok(out)
    }

    /// The index of the first entry that stores the profile `name`.
    pub fn find_profile(entries: &Vec<ScanEntry>, name: &str) -> (r: Option<usize>)
        ensures
            match r {
                Some(i) => first_stored_at(entries@, name@, i as int),
                None => forall|j: int| 0 <= j < entries@.len() ==> !stores(#[trigger] entries@[j], name@),
            },
    {
        let mut i: usize = 0;
        while i < entries.len()
            invariant
                i <= entries@.len(),
                forall|j: int| 0 <= j < i ==> !stores(#[trigger] entries@[j], name@),
            decreases entries@.len() - i,
        {
            match entries[i].profile() {
                Some(m) => {
                    if same_text(m.name.as_str(), name) {
                        return Some(i);
                    }
                },
                None => {},
            }
            i += 1;
        }
        None
    }

    /// Ends the reading of the profile `name`. `found` is what became of the
    /// search and of the file: `None` where no entry stores the profile,
    /// else the profile parsed from the file, or why it could not be had.
    /// A profile that is not valid is never handed out.
    pub fn read_profile(kind: Kind, name: &str, found: Option<Result<Profile, StoreError>>) -> (r: Result<
        Profile,
        StoreError,
    >)
        ensures
            match r {
                Ok(p) => read_outcome(kind, name@, found) == Ok::<Profile, StoreErrorView>(p),
                Err(e) => read_outcome(kind, name@, found) == Err::<Profile, StoreErrorView>(e@),
            },
    {
        match found {
            None => Err(StoreError::NotFound(label_of(kind, name))),
            Some(Err(e)) => Err(e),
            Some(Ok(p)) => match p.validate() {
                Ok(()) => Ok(p),
                Err(msg) => Err(StoreError::Validation(msg)),
            },
        }
    }

    /// Plans the writing of a profile. A profile that is not valid is refused
    /// before anything is planned.
    pub fn write_profile(&self, kind: Kind, name: &str, profile: &Profile, backup: bool) -> (r: Result<
        WritePlan,
        StoreError,
    >)
        ensures
            match r {
                Ok(plan) => self.write_outcome(kind, name@, *profile, backup) == Ok::<
                    WritePlanView,
                    StoreErrorView,
                >(plan@),
                Err(e) => self.write_outcome(kind, name@, *profile, backup) == Err::<
                    WritePlanView,
                    StoreErrorView,
                >(e@),
            },
    {
        match profile.validate() {
            Ok(()) => {},
            Err(msg) => {
                return Err(StoreError::Validation(msg));
            },
        }
        let dir = self.kind_dir(kind);
        let file = concat_text(name, ".json");
        let path = join(dir.as_str(), file.as_str());
        let tmp = join(dir.as_str(), concat_text(name, ".json.tmp").as_str());
        let bak = join(dir.as_str(), concat_text(name, ".json.bak").as_str());
        Ok(WritePlan { dir, path, tmp, bak, backup })
    }

    /// Decides the deletion of a profile, given whether its canonical file
    /// exists, and names the file to remove. Files of that name elsewhere
    /// below the kind's directory play no part.
    pub fn delete_profile(&self, kind: Kind, name: &str, present: bool) -> (r: Result<String, StoreError>)
        ensures
            match r {
                Ok(path) => self.delete_outcome(kind, name@, present) == Ok::<Seq<char>, StoreErrorView>(
                    path@,
                ),
                Err(e) => self.delete_outcome(kind, name@, present) == Err::<Seq<char>, StoreErrorView>(
                    e@,
                ),
            },
    {
        let path = self.profile_path(kind, name);
        if !present {
            return Err(StoreError::NotFound(label_of(kind, name)));
        }
        Ok(path)
    }
}

/// Adding an entry at the end adds it to those of its name, and to no others.
pub proof fn lemma_named_push(metas: Seq<MetaView>, m: MetaView, name: Seq<char>)
    ensures
        named(metas.push(m), name) == if m.name == name {
            named(metas, name).push(m)
        } else {
            named(metas, name)
        },
{
    reveal(Seq::filter);
    assert(metas.push(m).drop_last() =~= metas);
}

/// Where no entry bears the name, those of the name are none.
proof fn lemma_named_none(metas: Seq<MetaView>, name: Seq<char>)
    requires
        forall|j: int| 0 <= j < metas.len() ==> (#[trigger] metas[j]).name != name,
    ensures
        named(metas, name) == Seq::<MetaView>::empty(),
    decreases metas.len(),
{
    reveal(Seq::filter);
    if metas.len() > 0 {
        assert forall|j: int| 0 <= j < metas.drop_last().len() implies (#[trigger] metas.drop_last()[j]).name
            != name by {
            assert(metas.drop_last()[j] == metas[j]);
        }
        lemma_named_none(metas.drop_last(), name);
    }
}

/// Putting `m` in before entries of other names adds it to those of its
/// name, at their end, and changes nothing for another name.
proof fn lemma_named_insert(metas: Seq<MetaView>, p: int, m: MetaView, name: Seq<char>)
    requires
        0 <= p <= metas.len(),
        forall|j: int| p <= j < metas.len() ==> (#[trigger] metas[j]).name != m.name,
    ensures
        named(metas.insert(p, m), name) == if m.name == name {
            named(metas, name).push(m)
        } else {
            named(metas, name)
        },
{
    let head = metas.subrange(0, p);
    let tail = metas.subrange(p, metas.len() as int);
    let pred = |x: MetaView| x.name == name;
    assert(metas =~= head + tail);
    assert(metas.insert(p, m) =~= head.push(m) + tail);
    Seq::filter_distributes_over_add(head, tail, pred);
    Seq::filter_distributes_over_add(head.push(m), tail, pred);
    lemma_named_push(head, m, name);
    if m.name == name {
        assert forall|j: int| 0 <= j < tail.len() implies (#[trigger] tail[j]).name != name by {
            assert(tail[j] == metas[p + j]);
        }
        lemma_named_none(tail, name);
        assert(named(head, name) + Seq::<MetaView>::empty() =~= named(head, name));
        assert(named(head, name).push(m) + Seq::<MetaView>::empty() =~= named(head, name).push(m));
    }
}

} // verus!
