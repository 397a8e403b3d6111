//! The version-mapping store: for each requirement that a user has
//! declared, the installed version that satisfies it.

use crate::sequences::{lemma_filter_keeps_all, lemma_filter_removes_one};
use crate::version::{version_text, Version, VersionView};
use vstd::prelude::*;

verus! {

/// The association of one requirement with the version that satisfies it.
#[derive(Debug, PartialEq, Eq)]
pub struct VersionMapping {
    /// The requirement, as the user declared it.
    pub required: String,
    /// The installed version that satisfies it.
    pub current: Version,
}

/// What a [`VersionMapping`] stands for.
#[verifier::ext_equal]
pub struct MappingView {
    pub required: Seq<char>,
    pub current: VersionView,
}

impl View for VersionMapping {
    type V = MappingView;

    open spec fn view(&self) -> MappingView {
        MappingView { required: self.required@, current: self.current@ }
    }
}

/// A directory found under the version cache root.
#[derive(Debug, PartialEq, Eq)]
pub struct InstalledDirectory {
    /// The name of the directory: the text of the version it holds.
    pub name: String,
    /// Whether the directory holds what an installed version consists of.
    pub intact: bool,
}

/// What an [`InstalledDirectory`] stands for.
#[verifier::ext_equal]
pub struct DirectoryView {
    pub name: Seq<char>,
    pub intact: bool,
}

impl View for InstalledDirectory {
    type V = DirectoryView;

    open spec fn view(&self) -> DirectoryView {
        DirectoryView { name: self.name@, intact: self.intact }
    }
}

/// The mappings of a list, each taken by its view.
pub open spec fn mappings_view(mappings: Seq<VersionMapping>) -> Seq<MappingView> {
    mappings.map_values(|m: VersionMapping| m@)
}

/// The directories of a list, each taken by its view.
pub open spec fn directories_view(directories: Seq<InstalledDirectory>) -> Seq<DirectoryView> {
    directories.map_values(|d: InstalledDirectory| d@)
}

/// The texts of a list.
pub open spec fn names_view(names: Seq<String>) -> Seq<Seq<char>> {
    names.map_values(|n: String| n@)
}

/// Whether the cache holds an intact directory of this name.
pub open spec fn installed(directories: Seq<DirectoryView>, name: Seq<char>) -> bool {
    exists|i: int|
        0 <= i < directories.len() && (#[trigger] directories[i]).name == name
            && directories[i].intact
}

/// Whether the mapping is valid: the directory of the version that it
/// resolves to exists and is intact.
pub open spec fn valid_mapping(mapping: MappingView, directories: Seq<DirectoryView>) -> bool {
    installed(directories, version_text(mapping.current))
}

/// Whether some mapping resolves to the version of this name.
pub open spec fn mapped(mappings: Seq<MappingView>, name: Seq<char>) -> bool {
    exists|j: int| 0 <= j < mappings.len() && version_text((#[trigger] mappings[j]).current) == name
}

/// Whether a valid mapping refers to the directory of this name.
pub open spec fn referenced(
    mappings: Seq<MappingView>,
    directories: Seq<DirectoryView>,
    name: Seq<char>,
) -> bool {
    installed(directories, name) && mapped(mappings, name)
}

/// Whether some mapping is for this requirement.
pub open spec fn declared(mappings: Seq<MappingView>, required: Seq<char>) -> bool {
    exists|j: int| 0 <= j < mappings.len() && (#[trigger] mappings[j]).required == required
}

/// No two mappings are for the same requirement.
pub open spec fn distinct_requirements(mappings: Seq<MappingView>) -> bool {
    forall|i: int, j: int|
        0 <= i < j < mappings.len() ==> (#[trigger] mappings[i]).required != (
        #[trigger] mappings[j]).required
}

/// The mappings that are not for `required`.
pub open spec fn without(mappings: Seq<MappingView>, required: Seq<char>) -> Seq<MappingView> {
    mappings.filter(|m: MappingView| m.required != required)
}

/// The mappings that are valid.
pub open spec fn valid_mappings(
    mappings: Seq<MappingView>,
    directories: Seq<DirectoryView>,
) -> Seq<MappingView> {
    mappings.filter(|m: MappingView| valid_mapping(m, directories))
}

/// The names of the directories to which no valid mapping refers, in the
/// order of the listing.
pub open spec fn removals_of(mappings: Seq<MappingView>, directories: Seq<DirectoryView>) -> Seq<
    Seq<char>,
> {
    directories.filter(|d: DirectoryView| !referenced(mappings, directories, d.name)).map_values(
        |d: DirectoryView| d.name,
    )
}

/// Whether the cache holds an intact directory of this name.
pub fn is_installed(directories: &Vec<InstalledDirectory>, name: &String) -> (r: bool)
    ensures
        r == installed(directories_view(directories@), name@),
{
    let ghost view = directories_view(directories@);
    let mut i: usize = 0;
    while i < directories.len()
        invariant
            i <= directories.len(),
            view == directories_view(directories@),
            forall|k: int| 0 <= k < i ==> !((#[trigger] view[k]).name == name@ && view[k].intact),
        decreases directories.len() - i,
    {
        if directories[i].intact && directories[i].name == *name {
            assert(view[i as int].name == name@ && view[i as int].intact);
            return true;
        }
        i += 1;
    }
    false
}

impl Clone for VersionMapping {
    fn clone(&self) -> (r: Self)
        ensures
            r@ == self@,
    {
        VersionMapping { required: self.required.clone(), current: self.current.clone() }
    }
}

impl VersionMapping {
    /// Whether the directory of the version that this mapping resolves to
    /// exists and is intact.
    pub fn is_valid_mapping(&self, directories: &Vec<InstalledDirectory>) -> (r: bool)
        ensures
            r == valid_mapping(self@, directories_view(directories@)),
    {
        let name = self.current.to_string();
        is_installed(directories, &name)
    }
}

/// The store of version mappings. It holds at most one mapping for each
/// requirement.
#[derive(Debug)]
pub struct DvmMeta {
    versions: Vec<VersionMapping>,
}

impl View for DvmMeta {
    type V = Seq<MappingView>;

    closed spec fn view(&self) -> Seq<MappingView> {
        mappings_view(self.versions@)
    }
}

impl DvmMeta {
    #[verifier::type_invariant]
    spec fn well_formed(self) -> bool {
        distinct_requirements(mappings_view(self.versions@))
    }

    /// A store without mappings.
    pub fn new() -> (r: DvmMeta)
        ensures
            r@ == Seq::<MappingView>::empty(),
    {
        let r = DvmMeta { versions: Vec::new() };
        assert(r@ =~= Seq::<MappingView>::empty());
        r
    }

    /// The mappings of the store, in the order in which they were recorded.
    pub fn versions(&self) -> (r: &Vec<VersionMapping>)
        ensures
            mappings_view(r@) == self@,
            distinct_requirements(self@),
    {
        proof {
            use_type_invariant(self);
        }
        &self.versions
    }

    /// The position of the mapping for `required`, if there is one.
    fn position(&self, required: &String) -> (r: Option<usize>)
        ensures
            match r {
                Some(i) => i < self@.len() && self@[i as int].required == required@,
                None => !declared(self@, required@),
            },
    {
        let mut i: usize = 0;
        while i < self.versions.len()
            invariant
                i <= self.versions.len(),
                forall|k: int| 0 <= k < i ==> (#[trigger] self@[k]).required != required@,
            decreases self.versions.len() - i,
        {
            if self.versions[i].required == *required {
                return Some(i);
            }
            i += 1;
        }
        None
    }

    /// The version that satisfies `required`, if the store has a mapping for
    /// it.
    pub fn get_version_mapping(&self, required: &String) -> (r: Option<&Version>)
        ensures
            match r {
                Some(v) => exists|i: int|
                    0 <= i < self@.len() && (#[trigger] self@[i]).required == required@
                        && self@[i].current == v@,
                None => !declared(self@, required@),
            },
    {
        match self.position(required) {
            Some(i) => {
                assert(self@[i as int].current == self.versions[i as int].current@);
                Some(&self.versions[i].current)
            },
            None => None,
        }
    }

    /// A copy of the mappings that are not for `required`.
    fn copy_without(&self, required: &String) -> (r: Vec<VersionMapping>)
        ensures
            mappings_view(r@) == without(self@, required@),
            distinct_requirements(mappings_view(r@)),
            !declared(mappings_view(r@), required@),
    {
        proof {
            use_type_invariant(self);
        }
        let ghost before = self@;
        let ghost keep = |m: MappingView| m.required != required@;
        let found = self.position(required);
        let mut copy: Vec<VersionMapping> = Vec::new();
        let mut k: usize = 0;
        while k < self.versions.len()
            invariant
                k <= self.versions.len(),
                before == self@,
                before == mappings_view(self.versions@),
                match found {
                    Some(i) => i < before.len() && mappings_view(copy@) == if k <= i {
                        before.take(k as int)
                    } else {
                        before.take(k as int).remove(i as int)
                    },
                    None => mappings_view(copy@) == before.take(k as int),
                },
            decreases self.versions.len() - k,
        {
            let ghost former = mappings_view(copy@);
            let skip = match found {
                Some(i) => i == k,
                None => false,
            };
            if !skip {
                copy.push(self.versions[k].clone());
                assert(mappings_view(copy@) =~= former.push(before[k as int]));
            }
            proof {
                let head = before.take(k + 1);
                assert(head.drop_last() =~= before.take(k as int));
                match found {
                    Some(i) => {
                        if k < i {
                            assert(mappings_view(copy@) =~= head);
                        } else if k == i {
                            assert(mappings_view(copy@) =~= head.remove(i as int));
                        } else {
                            assert(mappings_view(copy@) =~= head.remove(i as int));
                        }
                    },
                    None => {
                        assert(mappings_view(copy@) =~= head);
                    },
                }
            }
            k += 1;
        }
        proof {
            assert(before.take(k as int) =~= before);
            match found {
                Some(i) => {
                    assert forall|j: int| 0 <= j < before.len() && j != i implies keep(
                        #[trigger] before[j],
                    ) by {
                        if j < i {
                            assert(before[j].required != before[i as int].required);
                        } else {
                            assert(before[i as int].required != before[j].required);
                        }
                    }
                    lemma_filter_removes_one(before, keep, i as int);
                },
                None => {
                    assert forall|j: int| 0 <= j < before.len() implies keep(
                        #[trigger] before[j],
                    ) by {}
                    lemma_filter_keeps_all(before, keep);
                },
            }
        }
        copy
    }

    /// Removes the mapping for `required`. Without one the store stays as it
    /// is.
    pub fn delete_version_mapping(&mut self, required: String)
        ensures
            final(self)@ == without(old(self)@, required@),
    {
        let kept = self.copy_without(&required);
        self.versions = kept;
    }

    /// Records that `current` satisfies `required`, in place of what the
    /// store held for that requirement.
    pub fn set_version_mapping(&mut self, required: String, current: Version)
        ensures
            final(self)@ == without(old(self)@, required@).push(
                MappingView { required: required@, current: current@ },
            ),
    {
        let mut kept = self.copy_without(&required);
        let ghost former = mappings_view(kept@);
        let ghost added = MappingView { required: required@, current: current@ };
        kept.push(VersionMapping { required, current });
        assert(mappings_view(kept@) =~= former.push(added));
        self.versions = kept;
    }

    /// The directories under the cache root that can go: those to which no
    /// valid mapping refers. The store itself stays as it is.
    pub fn clean_files(&self, directories: &Vec<InstalledDirectory>) -> (r: Vec<String>)
        ensures
            names_view(r@) == removals_of(self@, directories_view(directories@)),
    {
        let ghost listing = directories_view(directories@);
        let ghost stale = |d: DirectoryView| !referenced(self@, listing, d.name);
        let mut removals: Vec<String> = Vec::new();
        let mut i: usize = 0;
        assert(listing.take(0) =~= Seq::<DirectoryView>::empty());
        proof {
            reveal(Seq::filter);
        }
        while i < directories.len()
            invariant
                i <= directories.len(),
                listing == directories_view(directories@),
                stale == |d: DirectoryView| !referenced(self@, listing, d.name),
                names_view(removals@) == listing.take(i as int).filter(stale).map_values(
                    |d: DirectoryView| d.name,
                ),
            decreases directories.len() - i,
        {
            let name = &directories[i].name;
            let keep = is_installed(directories, name) && self.resolves_to(name);
            proof {
                reveal(Seq::filter);
                let head = listing.take(i + 1);
                assert(head.drop_last() =~= listing.take(i as int));
                assert(head.last() == directories[i as int]@);
            }
            if !keep {
                let ghost former = removals@;
                removals.push(name.clone());
                proof {
                    let kept = listing.take(i as int).filter(stale);
                    assert(names_view(removals@) =~= names_view(former).push(name@));
                    assert(kept.push(directories[i as int]@).map_values(
                        |d: DirectoryView| d.name,
                    ) =~= kept.map_values(|d: DirectoryView| d.name).push(name@));
                }
            }
            i += 1;
        }
        assert(listing.take(i as int) =~= listing);
        removals
    }

    /// Whether some mapping resolves to the version of this name.
    fn resolves_to(&self, name: &String) -> (r: bool)
        ensures
            r == mapped(self@, name@),
    {
        let mut j: usize = 0;
        while j < self.versions.len()
            invariant
                j <= self.versions.len(),
                forall|k: int| 0 <= k < j ==> version_text((#[trigger] self@[k]).current) != name@,
            decreases self.versions.len() - j,
        {
            if self.versions[j].current.to_string() == *name {
                assert(version_text(self@[j as int].current) == name@);
                return true;
            }
            j += 1;
        }
        false
    }
}

} // verus!
