//! What holds of the library as a whole: statements that tie several of its
//! functions together, each proved from what those functions promise.

use vstd::prelude::*;
use crate::api::{
    applies, first_refusal_at, lemma_refusal, merged, patch_outcome, patch_plan_outcome, replaced,
    ApiErrorView, DetailsView, PatchBody, PatchJoint, BAD_REQUEST,
};
use crate::config::Config;
use crate::model::{all_valid, Joint, Profile};
use crate::paths::{extension_of, lemma_last_dot_is, stem_of};
use crate::store::{
    first_stored_at, is_listing_of, lemma_named_push, named, profile_file, profile_label,
    read_outcome, scanned,
    sorted_by_name, stores, Kind, MetaView, ScanEntry, StepView, Store, StoreErrorView,
    WritePlanView,
};
use crate::text::{lemma_name_le_antisymmetric, name_le};

verus! {

/// Each kind is the kind that bears its name.
pub proof fn law_kind_names(kind: Kind)
    ensures
        Kind::named(kind.name()) == Some(kind),
{
    reveal_strlit("robots");
    reveal_strlit("teleoperators");
    assert("robots"@.len() != "teleoperators"@.len());
}

/// The file of a profile splits into the profile's name and the extension
/// `json`, so a walk that comes upon the file sees the profile under its
/// name. This is not so for the empty name, whose file would be `.json`.
pub proof fn law_profile_file_splits(name: Seq<char>)
    requires
        name.len() > 0,
    ensures
        stem_of(profile_file(name)) == name,
        extension_of(profile_file(name)) == Some("json"@),
{
    reveal_strlit(".json");
    reveal_strlit("json");
    let file = profile_file(name);
    let d = name.len() as int;
    assert(file[d] == ".json"@[0]);
    assert forall|j: int| d < j < file.len() implies file[j] != '.' by {
        assert(file[j] == ".json"@[j - d]);
    }
    lemma_last_dot_is(file, d);
    assert(file.subrange(0, d) =~= name);
    assert(file.subrange(d + 1, file.len() as int) =~= "json"@);
}

/// Reading finds what writing stored. Where the store accepts a profile for
/// writing, and a later walk through the kind's directory comes upon the
/// profile's file before any other that stores a profile of that name, the
/// search settles on that file, and the profile parsed from it is handed out
/// as it is. Turning the profile into the file's bytes and back is not part
/// of this library.
pub proof fn law_read_finds_written(
    store: Store,
    kind: Kind,
    name: Seq<char>,
    profile: Profile,
    backup: bool,
    entries: Seq<ScanEntry>,
    i: int,
)
    requires
        name.len() > 0,
        store.write_outcome(kind, name, profile, backup) is Ok,
        0 <= i < entries.len(),
        entries[i].is_file,
        entries[i].file_name matches Some(file) && file@ == profile_file(name),
        forall|j: int| 0 <= j < i ==> !stores(#[trigger] entries[j], name),
    ensures
        first_stored_at(entries, name, i),
        read_outcome(kind, name, Some(Ok(profile))) == Ok::<Profile, StoreErrorView>(profile),
{
    law_profile_file_splits(name);
}

/// What the store accepts for writing is what it hands out on reading: both
/// ask that every joint be valid, and nothing else.
pub proof fn law_written_is_readable(store: Store, kind: Kind, name: Seq<char>, profile: Profile, backup: bool)
    ensures
        store.write_outcome(kind, name, profile, backup) is Ok <==> read_outcome(
            kind,
            name,
            Some(Ok(profile)),
        ) is Ok,
{
}

/// A patch is made as a whole or not at all: where it names a joint that the
/// profile does not hold, no profile comes out of it and nothing is planned
/// for writing, whatever else it holds.
pub proof fn law_patch_all_or_nothing(
    store: Store,
    kind: Kind,
    profile_name: Seq<char>,
    current: Profile,
    patch: PatchBody,
    joint: Seq<char>,
)
    requires
        patch.wf(),
        patch@.contains_key(joint),
        !current@.contains_key(joint),
    ensures
        patch_outcome(current@, patch) is Err,
        patch_plan_outcome(store, kind, profile_name, current, patch) is Err,
{
    lemma_some_refusal(current@, patch, patch.keys().index_of(joint));
}

/// Where the unknown joint is the only entry of a patch that stands in the
/// way, it is the one reported.
pub proof fn law_patch_reports_unknown_joint(current: Map<Seq<char>, Joint>, patch: PatchBody, joint: Seq<char>)
    requires
        patch.wf(),
        patch@.contains_key(joint),
        !current.contains_key(joint),
        forall|other: Seq<char>|
            #[trigger] patch@.contains_key(other) && other != joint ==> applies(
                current,
                other,
                patch@[other],
            ),
    ensures
        patch_outcome(current, patch) == Err::<Map<Seq<char>, Joint>, ApiErrorView>(
            ApiErrorView {
                status: BAD_REQUEST,
                message: "unknown joint"@,
                details: Some(DetailsView::Name(joint)),
            },
        ),
{
    let i = patch.keys().index_of(joint);
    assert(patch.keys()[i] == joint);
    assert forall|j: int| 0 <= j < i implies applies(current, #[trigger] patch.keys()[j], patch.vals()[j]) by {
        patch.lemma_view_at(j);
        assert(patch@.contains_key(patch.keys()[j]));
    }
    lemma_refusal(current, patch, i);
}

/// A patch changes what it names and nothing else. Where every change can
/// be made, the profile keeps its names; a joint that the patch does not
/// name stays as it was; and of a joint that it names, each field that the
/// patch holds takes the patch's value while each field that it leaves out
/// stays as it was.
pub proof fn law_patch_partial_update(current: Map<Seq<char>, Joint>, patch: PatchBody)
    requires
        patch.wf(),
        forall|name: Seq<char>| #[trigger] patch@.contains_key(name) ==> applies(current, name, patch@[name]),
    ensures
        patch_outcome(current, patch) matches Ok(joints) && {
            &&& joints.dom() == current.dom()
            &&& forall|name: Seq<char>|
                current.contains_key(name) && !patch@.contains_key(name) ==> #[trigger] joints[name]
                    == current[name]
            &&& forall|name: Seq<char>|
                #![trigger joints[name]]
                current.contains_key(name) && patch@.contains_key(name) ==> {
                    &&& joints[name].id == replaced(patch@[name].id, current[name].id)
                    &&& joints[name].drive_mode == replaced(
                        patch@[name].drive_mode,
                        current[name].drive_mode,
                    )
                    &&& joints[name].homing_offset == replaced(
                        patch@[name].homing_offset,
                        current[name].homing_offset,
                    )
                    &&& joints[name].range_min == replaced(
                        patch@[name].range_min,
                        current[name].range_min,
                    )
                    &&& joints[name].range_max == replaced(
                        patch@[name].range_max,
                        current[name].range_max,
                    )
                }
        },
{
    if exists|i: int| first_refusal_at(current, patch, i) {
        let i = choose|i: int| first_refusal_at(current, patch, i);
        patch.lemma_view_at(i);
        assert(patch@.contains_key(patch.keys()[i]));
    }
    assert(merged(current, patch@).dom() =~= current.dom());
}

/// A patch that holds nothing but a new upper end of one joint's range
/// changes that end and leaves the joint's other fields, and every other
/// joint, as they were.
pub proof fn law_patch_range_max_only(current: Map<Seq<char>, Joint>, patch: PatchBody, joint: Seq<char>, top: i32)
    requires
        patch.wf(),
        patch.keys() == seq![joint],
        patch.vals() == seq![
            PatchJoint {
                id: None,
                drive_mode: None,
                homing_offset: None,
                range_min: None,
                range_max: Some(top),
            },
        ],
        current.contains_key(joint),
        current[joint].valid(),
        current[joint].range_min < top,
    ensures
        patch_outcome(current, patch) == Ok::<Map<Seq<char>, Joint>, ApiErrorView>(
            current.insert(
                joint,
                Joint {
                    id: current[joint].id,
                    drive_mode: current[joint].drive_mode,
                    homing_offset: current[joint].homing_offset,
                    range_min: current[joint].range_min,
                    range_max: top,
                },
            ),
        ),
{
    patch.lemma_view_at(0);
    assert forall|name: Seq<char>| #[trigger] patch@.contains_key(name) implies name == joint by {
        let j = patch.keys().index_of(name);
        assert(patch.keys()[j] == name);
    }
    if exists|i: int| first_refusal_at(current, patch, i) {
        let i = choose|i: int| first_refusal_at(current, patch, i);
        assert(i == 0);
    }
    assert(merged(current, patch@) =~= current.insert(
        joint,
        Joint {
            id: current[joint].id,
            drive_mode: current[joint].drive_mode,
            homing_offset: current[joint].homing_offset,
            range_min: current[joint].range_min,
            range_max: top,
        },
    ));
}

/// A patch that is made of a valid profile leaves it valid, so the profile
/// that the store read can always be written back once it is patched.
pub proof fn law_patch_keeps_valid(
    store: Store,
    kind: Kind,
    profile_name: Seq<char>,
    current: Profile,
    patch: PatchBody,
)
    requires
        patch.wf(),
        current.valid(),
    ensures
        patch_outcome(current@, patch) matches Ok(joints) ==> all_valid(joints) && patch_plan_outcome(
            store,
            kind,
            profile_name,
            current,
            patch,
        ) is Ok,
{
    if patch_outcome(current@, patch) is Ok {
        let joints = merged(current@, patch@);
        assert forall|name: Seq<char>| #[trigger] joints.contains_key(name) implies joints[name].valid() by {
            if patch@.contains_key(name) {
                let j = patch.keys().index_of(name);
                assert(patch.keys()[j] == name);
                patch.lemma_view_at(j);
                if !applies(current@, name, patch@[name]) {
                    lemma_some_refusal(current@, patch, j);
                }
            }
        }
    }
}

/// Where some entry of a patch cannot be applied, there is a first such entry.
proof fn lemma_some_refusal(current: Map<Seq<char>, Joint>, patch: PatchBody, i: int)
    requires
        0 <= i < patch.keys().len(),
        !applies(current, patch.keys()[i], patch.vals()[i]),
    ensures
        exists|k: int| first_refusal_at(current, patch, k),
        patch_outcome(current, patch) is Err,
    decreases i,
{
    if forall|j: int| 0 <= j < i ==> applies(current, #[trigger] patch.keys()[j], patch.vals()[j]) {
        assert(first_refusal_at(current, patch, i));
    } else {
        let j = choose|j: int| 0 <= j < i && !applies(current, #[trigger] patch.keys()[j], patch.vals()[j]);
        lemma_some_refusal(current, patch, j);
    }
}

/// Where some entry bears a name, the entries of that name are not none.
proof fn lemma_named_some(metas: Seq<MetaView>, name: Seq<char>)
    requires
        named(metas, name).len() > 0,
    ensures
        exists|i: int| 0 <= i < metas.len() && (#[trigger] metas[i]).name == name,
{
    let pred = |m: MetaView| m.name == name;
    let first = named(metas, name)[0];
    metas.lemma_filter_pred(pred, 0);
    assert(named(metas, name).contains(first));
    metas.lemma_filter_contains_rev(pred, first);
    let i = choose|i: int| 0 <= i < metas.len() && metas[i] == first;
    assert(metas[i].name == name);
}

/// Two sorted sequences whose entries of each name are the same, in the same
/// order, end with the same entry.
proof fn lemma_same_last(a: Seq<MetaView>, b: Seq<MetaView>)
    requires
        sorted_by_name(a),
        sorted_by_name(b),
        forall|name: Seq<char>| #[trigger] named(a, name) == named(b, name),
        a.len() > 0,
    ensures
        b.len() > 0,
        b.last() == a.last(),
{
    let x = a.last();
    let n = x.name;
    assert(a =~= a.drop_last().push(x));
    lemma_named_push(a.drop_last(), x, n);
    assert(named(a, n).last() == x);
    assert(named(b, n) == named(a, n));
    b.lemma_filter_len(|m: MetaView| m.name == n);
    let y = b.last();
    let m = y.name;
    assert(b =~= b.drop_last().push(y));
    lemma_named_push(b.drop_last(), y, n);
    if m != n {
        lemma_named_push(b.drop_last(), y, m);
        assert(named(a, m) == named(b, m));
        lemma_named_some(a, m);
        let i = choose|i: int| 0 <= i < a.len() && (#[trigger] a[i]).name == m;
        assert(i < a.len() - 1);
        assert(name_le(a[i].name, a[a.len() - 1].name));
        lemma_named_some(b, n);
        let j = choose|j: int| 0 <= j < b.len() && (#[trigger] b[j]).name == n;
        assert(j < b.len() - 1);
        assert(name_le(b[j].name, b[b.len() - 1].name));
        lemma_name_le_antisymmetric(m, n);
    }
}

/// A listing holds what the walk found, and nothing else.
pub proof fn law_listing_holds_what_was_found(listed: Seq<MetaView>, found: Seq<MetaView>, m: MetaView)
    requires
        is_listing_of(listed, found),
    ensures
        listed.contains(m) <==> found.contains(m),
{
    let pred = |x: MetaView| x.name == m.name;
    assert(named(listed, m.name) == named(found, m.name));
    if listed.contains(m) {
        let i = choose|i: int| 0 <= i < listed.len() && listed[i] == m;
        listed.lemma_filter_contains(pred, i);
        found.lemma_filter_contains_rev(pred, m);
    }
    if found.contains(m) {
        let i = choose|i: int| 0 <= i < found.len() && found[i] == m;
        found.lemma_filter_contains(pred, i);
        listed.lemma_filter_contains_rev(pred, m);
    }
}

/// What an entry of a walk stores is among the profiles that the walk came upon.
proof fn lemma_scanned_holds(entries: Seq<ScanEntry>, i: int)
    requires
        0 <= i < entries.len(),
        entries[i].meta() is Some,
    ensures
        scanned(entries).contains(entries[i].meta()->0),
    decreases entries.len(),
{
    let m = entries[i].meta()->0;
    let rest = entries.drop_last();
    if i == entries.len() - 1 {
        let found = scanned(entries);
        assert(found[found.len() - 1] == m);
    } else {
        assert(rest[i] == entries[i]);
        lemma_scanned_holds(rest, i);
        let k = choose|k: int| 0 <= k < scanned(rest).len() && scanned(rest)[k] == m;
        assert(scanned(entries)[k] == m);
    }
}

/// Listing and reading agree on which profiles there are: a name stands in
/// the listing of a walk if and only if a search of the same walk finds a
/// profile of that name.
pub proof fn law_listed_is_found(entries: Seq<ScanEntry>, listed: Seq<MetaView>, name: Seq<char>)
    requires
        is_listing_of(listed, scanned(entries)),
    ensures
        (exists|k: int| 0 <= k < listed.len() && (#[trigger] listed[k]).name == name) <==> (exists|i: int|
            0 <= i < entries.len() && stores(#[trigger] entries[i], name)),
{
    if exists|k: int| 0 <= k < listed.len() && (#[trigger] listed[k]).name == name {
        let k = choose|k: int| 0 <= k < listed.len() && (#[trigger] listed[k]).name == name;
        let m = listed[k];
        assert(listed.contains(m));
        law_listing_holds_what_was_found(listed, scanned(entries), m);
        entries.lemma_filter_map_contains(|e: ScanEntry| e.meta(), m);
        let t = choose|t: ScanEntry| #[trigger] entries.contains(t) && t.meta() == Some(m);
        let i = choose|i: int| 0 <= i < entries.len() && entries[i] == t;
        assert(stores(entries[i], name));
    }
    if exists|i: int| 0 <= i < entries.len() && stores(#[trigger] entries[i], name) {
        let i = choose|i: int| 0 <= i < entries.len() && stores(#[trigger] entries[i], name);
        let m = entries[i].meta()->0;
        lemma_scanned_holds(entries, i);
        law_listing_holds_what_was_found(listed, scanned(entries), m);
        let k = choose|k: int| 0 <= k < listed.len() && listed[k] == m;
        assert(listed[k].name == name);
    }
}

/// A walk has one listing only: sorting by name, with the entries of one
/// name left in the order of the walk, leaves no choice.
pub proof fn law_listing_is_unique(a: Seq<MetaView>, b: Seq<MetaView>, found: Seq<MetaView>)
    requires
        is_listing_of(a, found),
        is_listing_of(b, found),
    ensures
        a == b,
{
    assert forall|name: Seq<char>| #[trigger] named(a, name) == named(b, name) by {
        assert(named(a, name) == named(found, name));
        assert(named(b, name) == named(found, name));
    }
    lemma_same_groups(a, b);
}

/// Two sorted sequences whose entries of each name are the same, in the same
/// order, are the same.
proof fn lemma_same_groups(a: Seq<MetaView>, b: Seq<MetaView>)
    requires
        sorted_by_name(a),
        sorted_by_name(b),
        forall|name: Seq<char>| #[trigger] named(a, name) == named(b, name),
    ensures
        a == b,
    decreases a.len(),
{
    if a.len() == 0 {
        if b.len() > 0 {
            lemma_same_last(b, a);
        }
        assert(a =~= b);
    } else {
        lemma_same_last(a, b);
        let x = a.last();
        let a0 = a.drop_last();
        let b0 = b.drop_last();
        assert(a =~= a0.push(x));
        assert(b =~= b0.push(x));
        assert forall|name: Seq<char>| #[trigger] named(a0, name) == named(b0, name) by {
            lemma_named_push(a0, x, name);
            lemma_named_push(b0, x, name);
            assert(named(a, name) == named(b, name));
            if x.name == name {
                assert(named(a0, name) =~= named(a0, name).push(x).drop_last());
                assert(named(b0, name) =~= named(b0, name).push(x).drop_last());
            }
        }
        assert forall|i: int, j: int| 0 <= i < j < a0.len() implies name_le(a0[i].name, a0[j].name) by {
            assert(a0[i] == a[i] && a0[j] == a[j]);
        }
        assert forall|i: int, j: int| 0 <= i < j < b0.len() implies name_le(b0[i].name, b0[j].name) by {
            assert(b0[i] == b[i] && b0[j] == b[j]);
        }
        lemma_same_groups(a0, b0);
    }
}

/// Only a file that is there is backed up, and only on request: a plan
/// without backup never names the backup file in an operation, and a plan
/// with backup copies the canonical file to it before anything is written.
pub proof fn law_backup_steps(plan: WritePlanView, present: bool)
    ensures
        !plan.backs_up(present) ==> plan.steps(present) == seq![
            StepView::CreateDirAll { dir: plan.dir },
            StepView::WriteSynced { path: plan.tmp },
            StepView::Rename { from: plan.tmp, to: plan.path },
        ],
        plan.backs_up(present) ==> plan.steps(present) == seq![
            StepView::CreateDirAll { dir: plan.dir },
            StepView::Copy { from: plan.path, to: plan.bak },
            StepView::WriteSynced { path: plan.tmp },
            StepView::Rename { from: plan.tmp, to: plan.path },
        ],
        !plan.backup ==> !plan.backs_up(present),
{
    if plan.backs_up(present) {
        assert(plan.steps(present) =~= seq![
            StepView::CreateDirAll { dir: plan.dir },
            StepView::Copy { from: plan.path, to: plan.bak },
            StepView::WriteSynced { path: plan.tmp },
            StepView::Rename { from: plan.tmp, to: plan.path },
        ]);
    } else {
        assert(plan.steps(present) =~= seq![
            StepView::CreateDirAll { dir: plan.dir },
            StepView::WriteSynced { path: plan.tmp },
            StepView::Rename { from: plan.tmp, to: plan.path },
        ]);
    }
}

/// Deleting goes by the canonical file alone. Where that file is missing the
/// profile is not found, whatever a walk would show of it elsewhere; where
/// it is there, it is the one file to remove.
pub proof fn law_delete_is_canonical(store: Store, kind: Kind, name: Seq<char>, present: bool)
    ensures
        !present ==> store.delete_outcome(kind, name, present) == Err::<Seq<char>, StoreErrorView>(
            StoreErrorView::NotFound(profile_label(kind, name)),
        ),
        present ==> store.delete_outcome(kind, name, present) == Ok::<Seq<char>, StoreErrorView>(
            store.path_of(kind, name),
        ),
{
}

/// The store and the configuration agree on where each kind lives.
pub proof fn law_kind_directories(config: Config, store: Store)
    requires
        store.root() == config.calib_root@,
    ensures
        store.dir_of(Kind::Robots) == config.robots(),
        store.dir_of(Kind::Teleoperators) == config.teleoperators(),
{
}

} // verus!
