//! Joints and profiles, and what makes them valid.

use vstd::prelude::*;
use vstd::std_specs::cmp::PartialEqSpecImpl;
use crate::names::NameMap;
use crate::text::concat_text;

verus! {

/// Calibration of one actuator.
#[derive(Debug, Clone, Copy, PartialEq, Eq, Structural)]
pub struct Joint {
    pub id: i32,
    pub drive_mode: i32,
    pub homing_offset: i32,
    pub range_min: i32,
    pub range_max: i32,
}

impl Joint {
    /// A joint is valid when its id is positive and its range is not empty.
    pub open spec fn valid(self) -> bool {
        self.id > 0 && self.range_min < self.range_max
    }

    /// The reason a joint is rejected: the id is looked at before the range.
    pub open spec fn fault(self) -> Seq<char> {
        if self.id <= 0 {
            "id must be > 0"@
        } else {
            "range_min must be < range_max"@
        }
    }

    /// Accepts a valid joint, and says of another what is wrong with it.
    pub fn validate(&self) -> (r: Result<(), String>)
        ensures
            r is Ok <==> self.valid(),
            r matches Err(msg) ==> msg@ == self.fault(),
    {
        if self.id <= 0 {
            return Err("id must be > 0".to_string());
        }
        if self.range_min >= self.range_max {
            return Err("range_min must be < range_max".to_string());
        }
        Ok(())
    }
}

/// The joints of one device, by name.
#[derive(Debug)]
pub struct Profile(pub NameMap<Joint>);

impl View for Profile {
    type V = Map<Seq<char>, Joint>;

    open spec fn view(&self) -> Map<Seq<char>, Joint> {
        self.0@
    }
}

/// What a profile reports of the joint `name` that is not valid.
pub open spec fn joint_fault(name: Seq<char>, joint: Joint) -> Seq<char> {
    "joint `"@ + name + "` invalid: "@ + joint.fault()
}

/// Whether the joint of the name at index `i` is the first, in the order of
/// `names`, that is not valid.
pub open spec fn first_fault_at(names: Seq<Seq<char>>, joints: Map<Seq<char>, Joint>, i: int) -> bool {
    &&& 0 <= i < names.len()
    &&& !joints[names[i]].valid()
    &&& forall|j: int| 0 <= j < i ==> joints[#[trigger] names[j]].valid()
}

/// The fault of the first joint, in the order of `names`, that is not valid.
pub open spec fn fault_in(names: Seq<Seq<char>>, joints: Map<Seq<char>, Joint>) -> Seq<char> {
    let i = choose|i: int| first_fault_at(names, joints, i);
    joint_fault(names[i], joints[names[i]])
}

/// At most one index is that of the first joint that is not valid.
pub proof fn lemma_first_fault_unique(names: Seq<Seq<char>>, joints: Map<Seq<char>, Joint>, i: int, k: int)
    requires
        first_fault_at(names, joints, i),
        first_fault_at(names, joints, k),
    ensures
        i == k,
{
    if i < k {
        assert(joints[names[i]].valid());
    }
    if k < i {
        assert(joints[names[k]].valid());
    }
}

/// Whether each of the joints is valid.
pub open spec fn all_valid(joints: Map<Seq<char>, Joint>) -> bool {
    forall|name: Seq<char>| #[trigger] joints.contains_key(name) ==> joints[name].valid()
}

impl Profile {
    /// A profile is valid when each of its joints is.
    pub open spec fn valid(&self) -> bool {
        all_valid(self@)
    }

    /// What the profile reports where it is not valid: the fault of the
    /// first joint, in insertion order, that is not valid.
    pub open spec fn fault(&self) -> Seq<char> {
        fault_in(self.0.keys(), self@)
    }

    /// Checks every joint. The first joint in insertion order that is not
    /// valid is the one reported.
    pub fn validate(&self) -> (r: Result<(), String>)
        ensures
            r is Ok <==> self.valid(),
            r matches Err(msg) ==> msg@ == self.fault(),
    {
        proof {
            use_type_invariant(&self.0);
        }
        let n = self.0.len();
        let mut i: usize = 0;
        while i < n
            invariant
                n == self.0.keys().len(),
                self.0.wf(),
                i <= n,
                forall|j: int| 0 <= j < i ==> self@[#[trigger] self.0.keys()[j]].valid(),
            decreases n - i,
        {
            let joint = self.0.value_at(i);
            match joint.validate() {
                Ok(()) => {},
                Err(cause) => {
                    let name = self.0.name_at(i);
                    let head = concat_text("joint `", name.as_str());
                    let mid = concat_text(head.as_str(), "` invalid: ");
                    let msg = concat_text(mid.as_str(), cause.as_str());
                    proof {
                        assert(first_fault_at(self.0.keys(), self@, i as int));
                        let c = choose|c: int| first_fault_at(self.0.keys(), self@, c);
                        lemma_first_fault_unique(self.0.keys(), self@, i as int, c);
                        assert(msg@ =~= joint_fault(self.0.keys()[i as int], *joint));
                    }
                    return Err(msg);
                },
            }
            i += 1;
        }
        proof {
            assert forall|name: Seq<char>| #[trigger] self@.contains_key(name) implies self@[name].valid() by {
                let j = self.0.keys().index_of(name);
                assert(self.0.keys()[j] == name);
            }
        }
        Ok(())
    }
}

impl Clone for Profile {
    /// A copy with the same joints under the same names, in the same order.
    fn clone(&self) -> (r: Self)
        ensures
            r@ == self@,
            r.0.keys() == self.0.keys(),
            r.0.vals() == self.0.vals(),
    {
        Profile(self.0.clone())
    }
}

impl PartialEqSpecImpl for Profile {
    open spec fn obeys_eq_spec() -> bool {
        true
    }

    /// Two profiles are equal when they hold the same joints under the same
    /// names, in whatever order those were inserted.
    open spec fn eq_spec(&self, other: &Profile) -> bool {
        self@ == other@
    }
}

impl PartialEq for Profile {
    /// Whether each joint of the one is a joint of the other, under the
    /// same name and with the same fields.
    fn eq(&self, other: &Profile) -> (r: bool) {
        proof {
            use_type_invariant(&self.0);
            use_type_invariant(&other.0);
        }
        let n = self.0.len();
        let mut i: usize = 0;
        while i < n
            invariant
                n == self.0.keys().len(),
                self.0.wf(),
                i <= n,
                forall|j: int|
                    0 <= j < i ==> other@.contains_key(#[trigger] self.0.keys()[j]) && other@[self.0.keys()[j]]
                        == self.0.vals()[j],
            decreases n - i,
        {
            let name = self.0.name_at(i);
            let joint = self.0.value_at(i);
            match other.0.get(name.as_str()) {
                Some(theirs) => {
                    if *theirs != *joint {
                        return false;
                    }
                },
                None => {
                    return false;
                },
            }
            i += 1;
        }
        let m = other.0.len();
        let mut k: usize = 0;
        while k < m
            invariant
                m == other.0.keys().len(),
                other.0.wf(),
                k <= m,
                forall|j: int| 0 <= j < k ==> self@.contains_key(#[trigger] other.0.keys()[j]),
            decreases m - k,
        {
            let name = other.0.name_at(k);
            if !self.0.contains_key(name.as_str()) {
                proof {
                    other.0.lemma_view_at(k as int);
                }
                return false;
            }
            k += 1;
        }
        proof {
            assert forall|name: Seq<char>| self@.contains_key(name) implies other@.contains_key(name)
                && other@[name] == self@[name] by {
                let j = self.0.keys().index_of(name);
                assert(self.0.keys()[j] == name);
                self.0.lemma_view_at(j);
            }
            assert forall|name: Seq<char>| other@.contains_key(name) implies self@.contains_key(name) by {
                let j = other.0.keys().index_of(name);
                assert(other.0.keys()[j] == name);
            }
            assert(self@ =~= other@);
        }
        true
    }
}

} // verus!
