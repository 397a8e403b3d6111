//! The cleanup: mappings that have gone stale are deleted from the store,
//! and the directories that nothing refers to any more are named for
//! removal.

use crate::meta::{
    declared, directories_view, distinct_requirements, mappings_view, names_view, referenced,
    removals_of, valid_mapping, valid_mappings, DirectoryView, DvmMeta, InstalledDirectory,
    MappingView,
};
use crate::sequences::{
    lemma_filter_agree, lemma_filter_keeps_all, lemma_filter_members, lemma_filter_twice,
};
use crate::version::version_text;
use vstd::prelude::*;

verus! {

/// The requirements whose mappings are not valid, in the order of the store.
pub open spec fn stale_requirements(
    mappings: Seq<MappingView>,
    directories: Seq<DirectoryView>,
) -> Seq<Seq<char>> {
    mappings.filter(|m: MappingView| !valid_mapping(m, directories)).map_values(
        |m: MappingView| m.required,
    )
}

/// The mappings whose requirement is not among `names`.
pub open spec fn not_among(names: Seq<Seq<char>>) -> spec_fn(MappingView) -> bool {
    |m: MappingView| !names.contains(m.required)
}

/// In a store with one mapping for each requirement, the requirement of a
/// mapping is among the stale ones exactly where the mapping is not valid.
proof fn lemma_stale_requirements(
    mappings: Seq<MappingView>,
    directories: Seq<DirectoryView>,
    j: int,
)
    requires
        distinct_requirements(mappings),
        0 <= j < mappings.len(),
    ensures
        stale_requirements(mappings, directories).contains(mappings[j].required) <==> !valid_mapping(
            mappings[j],
            directories,
        ),
{
    let stale = |m: MappingView| !valid_mapping(m, directories);
    let kept = mappings.filter(stale);
    let names = stale_requirements(mappings, directories);
    lemma_filter_members(mappings, stale);
    assert(mappings.contains(mappings[j]));
    if !valid_mapping(mappings[j], directories) {
        assert(kept.contains(mappings[j]));
        let k = choose|k: int| 0 <= k < kept.len() && kept[k] == mappings[j];
        assert(names[k] == mappings[j].required);
    }
    if names.contains(mappings[j].required) {
        let k = choose|k: int| 0 <= k < names.len() && names[k] == mappings[j].required;
        assert(kept.contains(kept[k]));
        assert(mappings.contains(kept[k]));
        let i = choose|i: int| 0 <= i < mappings.len() && mappings[i] == kept[k];
        if i < j {
            assert(mappings[i].required != mappings[j].required);
        } else if j < i {
            assert(mappings[j].required != mappings[i].required);
        }
    }
}

/// Carries out the cleanup on the store, given what is found under the
/// version cache root, and returns the names of the directories to remove.
///
/// Without a cache root (`None`) nothing happens. Else every mapping that is
/// not valid is deleted from the store, and the directories to which no
/// valid mapping refers are returned.
pub fn exec(meta: &mut DvmMeta, cache: Option<&Vec<InstalledDirectory>>) -> (r: Vec<String>)
    ensures
        match cache {
            None => final(meta)@ == old(meta)@ && r@.len() == 0,
            Some(directories) => {
                &&& final(meta)@ == valid_mappings(old(meta)@, directories_view(directories@))
                &&& names_view(r@) == removals_of(final(meta)@, directories_view(directories@))
            },
        },
{
    let directories = match cache {
        None => {
            return Vec::new();
        },
        Some(directories) => directories,
    };
    let ghost before = meta@;
    let ghost listing = directories_view(directories@);
    let ghost stale = |m: MappingView| !valid_mapping(m, listing);
    let mut doomed: Vec<String> = Vec::new();
    let versions = meta.versions();
    let mut i: usize = 0;
    proof {
        reveal(Seq::filter);
        assert(before.take(0) =~= Seq::<MappingView>::empty());
    }
    while i < versions.len()
        invariant
            i <= versions.len(),
            before == mappings_view(versions@),
            listing == directories_view(directories@),
            stale == |m: MappingView| !valid_mapping(m, listing),
            names_view(doomed@) == before.take(i as int).filter(stale).map_values(
                |m: MappingView| m.required,
            ),
        decreases versions.len() - i,
    {
        let valid = versions[i].is_valid_mapping(directories);
        proof {
            reveal(Seq::filter);
            let head = before.take(i + 1);
            assert(head.drop_last() =~= before.take(i as int));
            assert(head.last() == versions[i as int]@);
        }
        if !valid {
            let ghost former = doomed@;
            doomed.push(versions[i].required.clone());
            proof {
                let kept = before.take(i as int).filter(stale);
                assert(names_view(doomed@) =~= names_view(former).push(
                    versions[i as int].required@,
                ));
                assert(kept.push(versions[i as int]@).map_values(|m: MappingView| m.required)
                    =~= kept.map_values(|m: MappingView| m.required).push(
                    versions[i as int].required@,
                ));
            }
        }
        i += 1;
    }
    let ghost names = names_view(doomed@);
    proof {
        assert(before.take(i as int) =~= before);
        assert(names == stale_requirements(before, listing));
        assert(names.take(0) =~= Seq::<Seq<char>>::empty());
        assert forall|j: int| 0 <= j < before.len() implies not_among(names.take(0))(
            #[trigger] before[j],
        ) by {}
        lemma_filter_keeps_all(before, not_among(names.take(0)));
    }
    let mut t: usize = 0;
    while t < doomed.len()
        invariant
            t <= doomed.len(),
            names == names_view(doomed@),
            meta@ == before.filter(not_among(names.take(t as int))),
        decreases doomed.len() - t,
    {
        meta.delete_version_mapping(doomed[t].clone());
        proof {
            let done = not_among(names.take(t as int));
            let next = not_among(names.take(t + 1));
            let r = names[t as int];
            let keep = |m: MappingView| m.required != r;
            lemma_filter_twice(before, done, keep);
            assert forall|j: int| 0 <= j < before.len() implies (done(before[j]) && keep(
                before[j],
            )) == next(#[trigger] before[j]) by {
                let m = before[j];
                let shorter = names.take(t as int);
                let longer = names.take(t + 1);
                assert(longer.drop_last() =~= shorter);
                assert(longer.last() == r);
                if longer.contains(m.required) {
                    let k = choose|k: int| 0 <= k < longer.len() && longer[k] == m.required;
                    if k < t {
                        assert(shorter[k] == m.required);
                    }
                }
                if shorter.contains(m.required) {
                    let k = choose|k: int| 0 <= k < shorter.len() && shorter[k] == m.required;
                    assert(longer[k] == m.required);
                }
                if m.required == r {
                    assert(longer[t as int] == m.required);
                }
            }
            lemma_filter_agree(before, |m: MappingView| done(m) && keep(m), next);
        }
        t += 1;
    }
    proof {
        assert(names.take(t as int) =~= names);
        assert forall|j: int| 0 <= j < before.len() implies not_among(names)(
            #[trigger] before[j],
        ) == valid_mapping(before[j], listing) by {
            lemma_stale_requirements(before, listing, j);
        }
        lemma_filter_agree(
            before,
            not_among(names),
            |m: MappingView| valid_mapping(m, listing),
        );
    }
    meta.clean_files(directories)
}

/// Deleting the stale mappings first does not change which directories the
/// cleanup removes.
pub proof fn lemma_removals_ignore_stale_mappings(
    mappings: Seq<MappingView>,
    directories: Seq<DirectoryView>,
)
    ensures
        removals_of(valid_mappings(mappings, directories), directories) == removals_of(
            mappings,
            directories,
        ),
{
    let valid = valid_mappings(mappings, directories);
    lemma_filter_members(mappings, |m: MappingView| valid_mapping(m, directories));
    assert forall|i: int| 0 <= i < directories.len() implies !referenced(
        valid,
        directories,
        (#[trigger] directories[i]).name,
    ) == !referenced(mappings, directories, directories[i].name) by {
        let name = directories[i].name;
        if referenced(mappings, directories, name) {
            let j = choose|j: int|
                0 <= j < mappings.len() && version_text((#[trigger] mappings[j]).current) == name;
            assert(mappings.contains(mappings[j]));
            assert(valid.contains(mappings[j]));
            let k = choose|k: int| 0 <= k < valid.len() && valid[k] == mappings[j];
            assert(version_text(valid[k].current) == name);
        }
        if referenced(valid, directories, name) {
            let k = choose|k: int|
                0 <= k < valid.len() && version_text((#[trigger] valid[k]).current) == name;
            assert(valid.contains(valid[k]));
            assert(mappings.contains(valid[k]));
            let j = choose|j: int| 0 <= j < mappings.len() && mappings[j] == valid[k];
            assert(version_text(mappings[j].current) == name);
        }
    }
    lemma_filter_agree(
        directories,
        |d: DirectoryView| !referenced(valid, directories, d.name),
        |d: DirectoryView| !referenced(mappings, directories, d.name),
    );
}

/// A mapping whose directory is gone is not valid, and the cleanup deletes
/// it: afterwards the store holds no mapping for its requirement. Every
/// valid mapping is still there, and nothing is there that was not there
/// before.
pub proof fn lemma_cleanup_drops_stale_keeps_valid(
    mappings: Seq<MappingView>,
    directories: Seq<DirectoryView>,
    i: int,
)
    requires
        distinct_requirements(mappings),
        0 <= i < mappings.len(),
        forall|k: int|
            0 <= k < directories.len() ==> (#[trigger] directories[k]).name != version_text(
                mappings[i].current,
            ),
    ensures
        !valid_mapping(mappings[i], directories),
        !declared(valid_mappings(mappings, directories), mappings[i].required),
        forall|j: int|
            0 <= j < mappings.len() && valid_mapping(#[trigger] mappings[j], directories)
                ==> valid_mappings(mappings, directories).contains(mappings[j]),
        forall|m: MappingView| #[trigger]
            valid_mappings(mappings, directories).contains(m) ==> mappings.contains(m)
                && valid_mapping(m, directories),
{
    let after = valid_mappings(mappings, directories);
    lemma_filter_members(mappings, |m: MappingView| valid_mapping(m, directories));
    assert forall|j: int|
        0 <= j < mappings.len() && valid_mapping(
            #[trigger] mappings[j],
            directories,
        ) implies after.contains(mappings[j]) by {
        assert(mappings.contains(mappings[j]));
    }
    if declared(after, mappings[i].required) {
        let k = choose|k: int|
            0 <= k < after.len() && (#[trigger] after[k]).required == mappings[i].required;
        assert(after.contains(after[k]));
        assert(mappings.contains(after[k]));
        let j = choose|j: int| 0 <= j < mappings.len() && mappings[j] == after[k];
        if j < i {
            assert(mappings[j].required != mappings[i].required);
        } else if i < j {
            assert(mappings[i].required != mappings[j].required);
        }
    }
}

/// The directories that are left once the cleanup has removed what it
/// names: those to which a valid mapping refers.
pub open spec fn kept_directories(
    mappings: Seq<MappingView>,
    directories: Seq<DirectoryView>,
) -> Seq<DirectoryView> {
    directories.filter(|d: DirectoryView| referenced(mappings, directories, d.name))
}

/// The cleanup leaves nothing stale behind and breaks nothing: every
/// mapping that is left in the store is valid, and it is still valid once
/// the directories that the cleanup names are removed; every directory that
/// is left is one to which a mapping of the store refers.
pub proof fn lemma_cleanup_is_thorough_and_safe(
    mappings: Seq<MappingView>,
    directories: Seq<DirectoryView>,
)
    ensures
        ({
            let after = valid_mappings(mappings, directories);
            let kept = kept_directories(after, directories);
            &&& forall|j: int|
                0 <= j < after.len() ==> valid_mapping(#[trigger] after[j], directories)
            &&& forall|j: int| 0 <= j < after.len() ==> valid_mapping(#[trigger] after[j], kept)
            &&& forall|k: int|
                0 <= k < kept.len() ==> referenced(after, directories, (#[trigger] kept[k]).name)
        }),
{
    let after = valid_mappings(mappings, directories);
    let keep = |d: DirectoryView| referenced(after, directories, d.name);
    let kept = kept_directories(after, directories);
    lemma_filter_members(mappings, |m: MappingView| valid_mapping(m, directories));
    lemma_filter_members(directories, keep);
    assert forall|j: int| 0 <= j < after.len() implies valid_mapping(
        #[trigger] after[j],
        directories,
    ) && valid_mapping(after[j], kept) by {
        assert(after.contains(after[j]));
        let name = version_text(after[j].current);
        let i = choose|i: int|
            0 <= i < directories.len() && (#[trigger] directories[i]).name == name
                && directories[i].intact;
        assert(directories.contains(directories[i]));
        assert(keep(directories[i]));
        assert(kept.contains(directories[i]));
        let k = choose|k: int| 0 <= k < kept.len() && kept[k] == directories[i];
        assert(kept[k].name == name && kept[k].intact);
    }
    assert forall|k: int| 0 <= k < kept.len() implies referenced(
        after,
        directories,
        (#[trigger] kept[k]).name,
    ) by {
        assert(kept.contains(kept[k]));
    }
}

/// Under an empty cache root the cleanup finds nothing to remove.
pub proof fn lemma_empty_cache_needs_no_cleaning(mappings: Seq<MappingView>)
    ensures
        removals_of(mappings, Seq::<DirectoryView>::empty()) == Seq::<Seq<char>>::empty(),
{
    reveal(Seq::filter);
    assert(removals_of(mappings, Seq::<DirectoryView>::empty()) =~= Seq::<Seq<char>>::empty());
}

} // verus!
