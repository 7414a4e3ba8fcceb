//! Build guides by name.

use vstd::prelude::*;

verus! {

/// One group of a build guide.
#[derive(Debug, Clone)]
pub struct GroupData {
    pub buildings: Vec<String>,
    pub units: Vec<String>,
    pub description: String,
}

/// A group and its name.
#[derive(Debug, Clone)]
pub struct NamedGroup {
    pub name: String,
    pub data: GroupData,
}

/// A build guide.
#[derive(Debug, Clone)]
pub struct BuildGuide {
    pub clan: String,
    pub lore_order: Vec<String>,
    pub groups: Vec<NamedGroup>,
}

/// A build guide and the name it is kept under.
#[derive(Debug)]
pub struct NamedGuide {
    pub name: String,
    pub guide: BuildGuide,
}

/// The build guides that were loaded.
#[derive(Debug)]
pub struct BuildGuideManager {
    /// The guides, each name once.
    pub guides: Vec<NamedGuide>,
    /// The directory that they were loaded from.
    pub guides_dir: String,
}

/// Index of the first guide at or after `from` that is kept under the name,
/// if there is one.
pub open spec fn guide_from(guides: Seq<NamedGuide>, name: Seq<char>, from: int) -> Option<int>
    decreases guides.len() - from,
{
    if from < 0 || from >= guides.len() {
        None
    } else if guides[from].name@ == name {
        Some(from)
    } else {
        guide_from(guides, name, from + 1)
    }
}

/// The names of the guides, in order.
pub open spec fn guide_names(guides: Seq<NamedGuide>) -> Seq<Seq<char>> {
    Seq::new(guides.len(), |i: int| guides[i].name@)
}

/// Names as plain values.
pub open spec fn names_view(names: Seq<String>) -> Seq<Seq<char>> {
    Seq::new(names.len(), |i: int| names[i]@)
}

/// No two guides are kept under the same name.
pub open spec fn names_distinct(guides: Seq<NamedGuide>) -> bool {
    forall|i: int, j: int|
        0 <= i < j < guides.len() ==> (#[trigger] guides[i]).name@ != (#[trigger] guides[j]).name@
}

/// A guide that is found lies in the list under the name; none is found only
/// if no guide is kept under the name.
pub proof fn lemma_guide_from(guides: Seq<NamedGuide>, name: Seq<char>, from: int)
    requires
        0 <= from,
    ensures
        match guide_from(guides, name, from) {
            Some(i) => from <= i < guides.len() && guides[i].name@ == name,
            None => forall|i: int| from <= i < guides.len() ==> (#[trigger] guides[i]).name@
                != name,
        },
    decreases guides.len() - from,
{
    if from < guides.len() && guides[from].name@ != name {
        lemma_guide_from(guides, name, from + 1);
    }
}

impl BuildGuideManager {
    /// No two guides are kept under the same name.
    pub open spec fn wf(&self) -> bool {
        names_distinct(self.guides@)
    }

    /// A manager without guides for the directory `guides_dir`.
    pub fn new(guides_dir: String) -> (manager: BuildGuideManager)
        ensures
            manager.wf(),
            manager.guides@.len() == 0,
            manager.guides_dir == guides_dir,
    {
        BuildGuideManager { guides: Vec::new(), guides_dir }
    }

    /// Finds the guide kept under `name`.
    fn find(&self, name: &str) -> (index: Option<usize>)
        ensures
            match index {
                Some(i) => guide_from(self.guides@, name@, 0) == Some(i as int) && i
                    < self.guides@.len(),
                None => guide_from(self.guides@, name@, 0) is None,
            },
    {
        let wanted = name.to_string();
        let mut i: usize = 0;
        while i < self.guides.len()
            invariant
                i <= self.guides@.len(),
                wanted@ == name@,
                guide_from(self.guides@, name@, 0) == guide_from(self.guides@, name@, i as int),
            decreases self.guides@.len() - i,
        {
            if self.guides[i].name == wanted {
                return Some(i);
            }
            i = i + 1;
        }
        None
    }

    /// Keeps a guide under `name`, in place of the one that was kept under
    /// that name if there was one.
    pub fn insert(&mut self, name: String, guide: BuildGuide)
        ensures
            final(self).guides_dir == old(self).guides_dir,
            final(self).guides@ == match guide_from(old(self).guides@, name@, 0) {
                Some(i) => old(self).guides@.update(i, NamedGuide { name, guide }),
                None => old(self).guides@.push(NamedGuide { name, guide }),
            },
            old(self).wf() ==> final(self).wf(),
    {
        let ghost before = self.guides@;
        proof {
            lemma_guide_from(before, name@, 0);
        }
        match self.find(name.as_str()) {
            Some(i) => {
                self.guides.set(i, NamedGuide { name, guide });
            },
            None => {
                self.guides.push(NamedGuide { name, guide });
            },
        }
        proof {
            if names_distinct(before) {
                assert forall|i: int, j: int| 0 <= i < j < self.guides@.len() implies (
                #[trigger] self.guides@[i]).name@ != (#[trigger] self.guides@[j]).name@ by {
                    if i < before.len() {
                        assert(self.guides@[i].name@ == before[i].name@);
                    }
                    if j < before.len() {
                        assert(self.guides@[j].name@ == before[j].name@);
                    }
                }
            }
        }
    }

    /// The names of the guides.
    pub fn get_guide_names(&self) -> (names: Vec<String>)
        ensures
            names_view(names@) == guide_names(self.guides@),
    {
        let mut names: Vec<String> = Vec::new();
        let mut i: usize = 0;
        assert(names_view(names@) =~= guide_names(self.guides@).take(0));
        while i < self.guides.len()
            invariant
                i <= self.guides@.len(),
                names_view(names@) == guide_names(self.guides@).take(i as int),
            decreases self.guides@.len() - i,
        {
            let copy = self.guides[i].name.clone();
            let ghost before = names@;
            names.push(copy);
            assert(names_view(names@) =~= names_view(before).push(self.guides@[i as int].name@));
            i = i + 1;
            assert(names_view(names@) =~= guide_names(self.guides@).take(i as int));
        }
        assert(guide_names(self.guides@).take(i as int) =~= guide_names(self.guides@));
        names
    }

    /// The guide kept under `name`.
    pub fn get_guide(&self, name: &str) -> (guide: Option<&BuildGuide>)
        ensures
            match guide_from(self.guides@, name@, 0) {
                Some(i) => guide == Some(&self.guides@[i].guide),
                None => guide is None,
            },
    {
        match self.find(name) {
            Some(i) => Some(&self.guides[i].guide),
            None => None,
        }
    }
}

} // verus!
