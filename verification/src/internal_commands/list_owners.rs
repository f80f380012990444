//! The `list-owners` built-in: collects the distinct owners of all
//! registered commands.

use vstd::prelude::*;
use vstd::seq_lib::group_to_multiset_ensures;
use crate::executables::{InternalExecutable, InternalExecutableDefinition,
    InternalExecutableDefinitionView};
use crate::interfaces::{DevKitCommand, DevKitConfig};
use crate::text::eq_str;

verus! {

/// Relies on `alphanumeric_sort::sort_str_slice`: reorders the strings in
/// place (alphanumerically), leaving their multiset unchanged.
#[verifier::external_body]
fn sort_owner_names(list: &mut Vec<String>)
    ensures
        final(list)@.to_multiset() == old(list)@.to_multiset(),
{
    alphanumeric_sort::sort_str_slice(list.as_mut_slice());
}

/// A permutation keeps membership.
proof fn lemma_permutation_keeps_members(a: Seq<String>, b: Seq<String>)
    requires
        a.to_multiset() == b.to_multiset(),
    ensures
        forall|x: String| a.contains(x) <==> b.contains(x),
{
    broadcast use group_to_multiset_ensures;

    assert forall|x: String| a.contains(x) <==> b.contains(x) by {
        assert(a.contains(x) <==> a.to_multiset().count(x) > 0);
        assert(b.contains(x) <==> b.to_multiset().count(x) > 0);
    }
}

/// A permutation of strings with pairwise distinct views again has pairwise
/// distinct views.
proof fn lemma_permutation_keeps_distinct_views(a: Seq<String>, b: Seq<String>)
    requires
        a.to_multiset() == b.to_multiset(),
        forall|i: int, j: int| 0 <= i < j < a.len() ==> a[i]@ != a[j]@,
    ensures
        forall|i: int, j: int| 0 <= i < j < b.len() ==> b[i]@ != b[j]@,
{
    broadcast use group_to_multiset_ensures;

    assert(a.no_duplicates()) by {
        assert forall|i: int, j: int| 0 <= i < a.len() && 0 <= j < a.len() && i != j
            implies a[i] != a[j] by {
            if i < j {
                assert(a[i]@ != a[j]@);
            } else {
                assert(a[j]@ != a[i]@);
            }
        }
    }
    a.lemma_multiset_has_no_duplicates();
    b.lemma_multiset_has_no_duplicates_conv();
    assert forall|i: int, j: int| 0 <= i < j < b.len() implies b[i]@ != b[j]@ by {
        if b[i]@ == b[j]@ {
            if b[i] == b[j] {
                assert(!b.no_duplicates());
                assert(false);
            } else {
                assert(b.contains(b[i]) && b.contains(b[j]));
                assert(b.contains(b[i]) <==> b.to_multiset().count(b[i]) > 0);
                assert(b.contains(b[j]) <==> b.to_multiset().count(b[j]) > 0);
                assert(a.contains(b[i]) <==> a.to_multiset().count(b[i]) > 0);
                assert(a.contains(b[j]) <==> a.to_multiset().count(b[j]) > 0);
                assert(a.contains(b[i]) && a.contains(b[j]));
                let ia = choose|k: int| 0 <= k < a.len() && a[k] == b[i];
                let ja = choose|k: int| 0 <= k < a.len() && a[k] == b[j];
                assert(ia != ja);
                if ia < ja {
                    assert(a[ia]@ != a[ja]@);
                } else {
                    assert(a[ja]@ != a[ia]@);
                }
                assert(false);
            }
        }
    }
}

/// Whether some entry of `list` reads as `s`.
fn contains_string(list: &Vec<String>, s: &str) -> (r: bool)
    ensures
        r == exists|i: int| 0 <= i < list@.len() && list@[i]@ == s@,
{
    let mut i: usize = 0;
    while i < list.len()
        invariant
            0 <= i <= list@.len(),
            forall|k: int| 0 <= k < i ==> list@[k]@ != s@,
        decreases list@.len() - i,
    {
        if eq_str(list[i].as_str(), s) {
            return true;
        }
        i = i + 1;
    }
    false
}

/// Lists all registered command owners.
pub struct ListOwners {
    pub root: String,
    pub configuration: DevKitConfig,
    pub definition: InternalExecutableDefinition,
}

impl ListOwners {
    pub fn new(root: String, configuration: DevKitConfig) -> (r: ListOwners)
        ensures
            r.root == root,
            r.configuration == configuration,
            r.definition@.name == "list-owners"@,
            r.definition@.description == "Lists all registered command owners"@,
            r.definition@.args.len() == 0,
    {
        let r = ListOwners {
            root,
            configuration,
            definition: InternalExecutableDefinition {
                name: "list-owners".to_owned(),
                description: "Lists all registered command owners".to_owned(),
                args: Vec::new(),
            },
        };
        proof {
            assert(r.definition@.args =~= Seq::<crate::executables::ArgDocView>::empty());
        }
        r
    }

    /// The distinct non-empty owners among `registered`, reordered for
    /// display; `None` when no command carries an owner.
    pub fn run(&self, registered: &Vec<DevKitCommand>) -> (r: Option<Vec<String>>)
        ensures
            match r {
                None => forall|j: int|
                    0 <= j < registered@.len() ==> registered@[j]@.owner.len() == 0,
                Some(owners) => owners@.len() > 0 && (forall|i: int, j: int|
                    0 <= i < j < owners@.len() ==> owners@[i]@ != owners@[j]@) && (forall|i: int|
                    0 <= i < owners@.len() ==> owners@[i]@.len() > 0 && exists|j: int|
                        0 <= j < registered@.len() && registered@[j]@.owner == owners@[i]@)
                    && (forall|j: int|
                    0 <= j < registered@.len() && registered@[j]@.owner.len() > 0
                        ==> exists|i: int|
                        0 <= i < owners@.len() && owners@[i]@ == registered@[j]@.owner),
            },
    {
        let mut owners: Vec<String> = Vec::new();
        let mut j: usize = 0;
        while j < registered.len()
            invariant
                0 <= j <= registered@.len(),
                forall|a: int, b: int| 0 <= a < b < owners@.len() ==> owners@[a]@ != owners@[b]@,
                forall|a: int| 0 <= a < owners@.len() ==> owners@[a]@.len() > 0 && exists|k: int|
                    0 <= k < registered@.len() && registered@[k]@.owner == owners@[a]@,
                forall|k: int| 0 <= k < j && registered@[k]@.owner.len() > 0 ==> exists|a: int|
                    0 <= a < owners@.len() && owners@[a]@ == registered@[k]@.owner,
            decreases registered@.len() - j,
        {
            let owner = &registered[j].owner;
            if owner.as_str().unicode_len() > 0 {
                if !contains_string(&owners, owner.as_str()) {
                    let ghost before = owners@;
                    owners.push(owner.clone());
                    proof {
                        assert(forall|a: int| 0 <= a < before.len() ==> owners@[a] == before[a]);
                        assert(owners@[before.len() as int]@ == registered@[j as int]@.owner);
                    }
                }
            }
            j = j + 1;
        }
        if owners.len() == 0 {
            return None;
        }
        let ghost collected = owners@;
        sort_owner_names(&mut owners);
        proof {
            lemma_permutation_keeps_members(collected, owners@);
            lemma_permutation_keeps_distinct_views(collected, owners@);
            broadcast use group_to_multiset_ensures;

            assert(collected.to_multiset().len() == collected.len());
            assert(owners@.to_multiset().len() == owners@.len());
            assert(owners@.len() == collected.len());
            assert forall|i: int| 0 <= i < owners@.len() implies owners@[i]@.len() > 0
                && exists|k: int|
                0 <= k < registered@.len() && registered@[k]@.owner == owners@[i]@ by {
                assert(owners@.contains(owners@[i]));
                assert(collected.contains(owners@[i]));
                let a = choose|a: int| 0 <= a < collected.len() && collected[a] == owners@[i];
                assert(collected[a]@.len() > 0);
            }
            assert forall|k: int|
                0 <= k < registered@.len() && registered@[k]@.owner.len() > 0 implies exists|i: int|
                0 <= i < owners@.len() && owners@[i]@ == registered@[k]@.owner by {
                let a = choose|a: int|
                    0 <= a < collected.len() && collected[a]@ == registered@[k]@.owner;
                assert(collected.contains(collected[a]));
                assert(owners@.contains(collected[a]));
                let i = choose|i: int| 0 <= i < owners@.len() && owners@[i] == collected[a];
                assert(owners@[i]@ == registered@[k]@.owner);
            }
        }
        Some(owners)
    }
}

impl InternalExecutable for ListOwners {
    open spec fn definition_view(&self) -> InternalExecutableDefinitionView {
        self.definition@
    }

    fn get_definition(&self) -> (d: &InternalExecutableDefinition) {
        &self.definition
    }
}

} // verus!
