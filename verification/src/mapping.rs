//! The table of scoped class names of one stylesheet.

use vstd::prelude::*;

verus! {

/// Where the definition of a composed class lives.
#[derive(Debug, PartialEq, Eq)]
pub enum CssModuleReference {
    /// A class of the same stylesheet.
    Local {
        /// The scoped name of the class.
        name: String,
    },
    /// A class that is not scoped.
    Global {
        /// The name of the class.
        name: String,
    },
    /// A class that another file exports.
    Dependency {
        /// The name of the class within that file.
        name: String,
        /// The specifier of that file.
        specifier: String,
    },
}

/// The mathematical value of a [`CssModuleReference`].
pub ghost enum CssModuleReferenceView {
    Local { name: Seq<char> },
    Global { name: Seq<char> },
    Dependency { name: Seq<char>, specifier: Seq<char> },
}

impl View for CssModuleReference {
    type V = CssModuleReferenceView;

    open spec fn view(&self) -> CssModuleReferenceView {
        match self {
            CssModuleReference::Local { name } => CssModuleReferenceView::Local { name: name@ },
            CssModuleReference::Global { name } => CssModuleReferenceView::Global { name: name@ },
            CssModuleReference::Dependency { name, specifier } => {
                CssModuleReferenceView::Dependency { name: name@, specifier: specifier@ }
            },
        }
    }
}

impl Clone for CssModuleReference {
    fn clone(&self) -> (copy: CssModuleReference)
        ensures
            copy@ == self@,
    {
        match self {
            CssModuleReference::Local { name } => CssModuleReference::Local { name: name.clone() },
            CssModuleReference::Global { name } => CssModuleReference::Global {
                name: name.clone(),
            },
            CssModuleReference::Dependency { name, specifier } => CssModuleReference::Dependency {
                name: name.clone(),
                specifier: specifier.clone(),
            },
        }
    }
}

/// What a stylesheet exports under one class name.
#[derive(Debug, PartialEq, Eq)]
pub struct CssModuleExport {
    /// The scoped name that the class was compiled to.
    pub name: String,
    /// The classes that this class composes, in order.
    pub composes: Vec<CssModuleReference>,
    /// Whether the stylesheet itself refers to the class.
    pub is_referenced: bool,
}

/// The mathematical value of a [`CssModuleExport`].
pub ghost struct CssModuleExportView {
    pub name: Seq<char>,
    pub composes: Seq<CssModuleReferenceView>,
    pub is_referenced: bool,
}

impl View for CssModuleExport {
    type V = CssModuleExportView;

    open spec fn view(&self) -> CssModuleExportView {
        CssModuleExportView {
            name: self.name@,
            composes: self.composes@.map_values(|r: CssModuleReference| r@),
            is_referenced: self.is_referenced,
        }
    }
}

impl Clone for CssModuleExport {
    fn clone(&self) -> (copy: CssModuleExport)
        ensures
            copy@ == self@,
    {
        let mut composes: Vec<CssModuleReference> = Vec::new();
        let mut i: usize = 0;
        while i < self.composes.len()
            invariant
                i <= self.composes@.len(),
                composes@.len() == i,
                forall|k: int| 0 <= k < i ==> composes@[k]@ == self.composes@[k]@,
            decreases self.composes.len() - i,
        {
            composes.push(self.composes[i].clone());
            i += 1;
        }
        let copy = CssModuleExport {
            name: self.name.clone(),
            composes,
            is_referenced: self.is_referenced,
        };
        proof {
            assert(copy@.composes =~= self@.composes);
        }
        copy
    }
}

/// The entries of a class-name table: class names with what is exported
/// under them.
pub type Entries = Seq<(Seq<char>, CssModuleExportView)>;

/// What `entries` holds under `key`: the export of the first entry with
/// that class name.
pub open spec fn lookup(entries: Entries, key: Seq<char>) -> Option<CssModuleExportView>
    decreases entries.len(),
{
    if entries.len() == 0 {
        None
    } else if entries[0].0 == key {
        Some(entries[0].1)
    } else {
        lookup(entries.skip(1), key)
    }
}

/// The position of the first entry of `entries` with the class name `key`.
pub open spec fn position(entries: Entries, key: Seq<char>) -> Option<int>
    decreases entries.len(),
{
    if entries.len() == 0 {
        None
    } else if entries[0].0 == key {
        Some(0int)
    } else {
        match position(entries.skip(1), key) {
            Some(i) => Some(i + 1),
            None => None,
        }
    }
}

/// No class name stands in `entries` twice.
pub open spec fn distinct_keys(entries: Entries) -> bool {
    forall|i: int, j: int| 0 <= i < j < entries.len() ==> entries[i].0 != entries[j].0
}

/// `position` finds the first entry with the key, and `lookup` returns
/// what stands there.
pub proof fn lemma_position(entries: Entries, key: Seq<char>)
    ensures
        match position(entries, key) {
            Some(i) => {
                &&& 0 <= i < entries.len()
                &&& entries[i].0 == key
                &&& forall|j: int| 0 <= j < i ==> entries[j].0 != key
                &&& lookup(entries, key) == Some(entries[i].1)
            },
            None => {
                &&& forall|j: int| 0 <= j < entries.len() ==> entries[j].0 != key
                &&& lookup(entries, key) is None
            },
        },
    decreases entries.len(),
{
    if entries.len() > 0 && entries[0].0 != key {
        let rest = entries.skip(1);
        lemma_position(rest, key);
        match position(rest, key) {
            Some(i) => {
                assert forall|j: int| 0 <= j < i + 1 implies entries[j].0 != key by {
                    if j > 0 {
                        assert(rest[j - 1] == entries[j]);
                    }
                }
            },
            None => {
                assert forall|j: int| 0 <= j < entries.len() implies entries[j].0 != key by {
                    if j > 0 {
                        assert(rest[j - 1] == entries[j]);
                    }
                }
            },
        }
    }
}

/// The class-name table of one stylesheet: for each class name of the
/// source, what the stylesheet exports under it. The entries keep the order
/// in which they were inserted.
#[derive(Debug, PartialEq, Eq)]
pub struct CssModuleExports {
    entries: Vec<(String, CssModuleExport)>,
}

impl View for CssModuleExports {
    type V = Entries;

    closed spec fn view(&self) -> Entries {
        self.entries@.map_values(|e: (String, CssModuleExport)| (e.0@, e.1@))
    }
}

impl CssModuleExports {
    /// A table without entries.
    pub fn new() -> (table: CssModuleExports)
        ensures
            table@ == Entries::empty(),
    {
        let table = CssModuleExports { entries: Vec::new() };
        proof {
            assert(table@ =~= Entries::empty());
        }
        table
    }

    /// The number of entries.
    pub fn len(&self) -> (n: usize)
        ensures
            n == self@.len(),
    {
        self.entries.len()
    }

    /// The class name of the entry at `index`.
    pub fn key_at(&self, index: usize) -> (key: &String)
        requires
            index < self@.len(),
        ensures
            key@ == self@[index as int].0,
    {
        &self.entries[index].0
    }

    /// The export of the entry at `index`.
    pub fn export_at(&self, index: usize) -> (export: &CssModuleExport)
        requires
            index < self@.len(),
        ensures
            export@ == self@[index as int].1,
    {
        &self.entries[index].1
    }

    /// The position of the entry with the class name `key`.
    pub fn find(&self, key: &str) -> (found: Option<usize>)
        ensures
            match found {
                Some(i) => position(self@, key@) == Some(i as int),
                None => position(self@, key@) is None,
            },
    {
        let mut i: usize = 0;
        proof {
            assert(self@.skip(0) =~= self@);
        }
        while i < self.entries.len()
            invariant
                i <= self@.len(),
                self@.len() == self.entries@.len(),
                match position(self@.skip(i as int), key@) {
                    Some(k) => position(self@, key@) == Some(k + i),
                    None => position(self@, key@) is None,
                },
            decreases self.entries.len() - i,
        {
            proof {
                assert(self@.skip(i as int).skip(1) =~= self@.skip(i + 1));
                assert(self@.skip(i as int)[0] == self@[i as int]);
            }
            if crate::text::same_text(self.entries[i].0.as_str(), key) {
                return Some(i);
            }
            i += 1;
        }
        None
    }

    /// What the table holds under the class name `key`.
    pub fn get(&self, key: &str) -> (export: Option<&CssModuleExport>)
        ensures
            match export {
                Some(e) => lookup(self@, key@) == Some(e@),
                None => lookup(self@, key@) is None,
            },
    {
        proof {
            lemma_position(self@, key@);
        }
        match self.find(key) {
            Some(i) => Some(&self.entries[i].1),
            None => None,
        }
    }

    /// Puts `export` under `key`. An entry that already has this class name
    /// keeps its place and gets the new export, which returns the old one;
    /// otherwise a new entry is added behind the others.
    pub fn insert(&mut self, key: String, export: CssModuleExport) -> (replaced: Option<
        CssModuleExport,
    >)
        ensures
            match position(old(self)@, key@) {
                Some(i) => {
                    &&& final(self)@ == old(self)@.update(i, (key@, export@))
                    &&& replaced matches Some(e)
                    &&& e@ == old(self)@[i].1
                },
                None => {
                    &&& final(self)@ == old(self)@.push((key@, export@))
                    &&& replaced is None
                },
            },
            distinct_keys(old(self)@) ==> distinct_keys(final(self)@),
    {
        proof {
            lemma_position(self@, key@);
        }
        let ghost before = self@;
        match self.find(key.as_str()) {
            Some(i) => {
                let old_entry = self.entries.remove(i);
                self.entries.insert(i, (key, export));
                proof {
                    assert(self@ =~= before.update(i as int, (key@, export@)));
                }
                Some(old_entry.1)
            },
            None => {
                self.entries.push((key, export));
                proof {
                    assert(self@ =~= before.push((key@, export@)));
                }
                None
            },
        }
    }
}

impl Clone for CssModuleExports {
    fn clone(&self) -> (copy: CssModuleExports)
        ensures
            copy@ == self@,
    {
        let mut entries: Vec<(String, CssModuleExport)> = Vec::new();
        let mut i: usize = 0;
        while i < self.entries.len()
            invariant
                i <= self.entries@.len(),
                entries@.len() == i,
                forall|k: int|
                    0 <= k < i ==> entries@[k].0@ == self.entries@[k].0@ && entries@[k].1@
                        == self.entries@[k].1@,
            decreases self.entries.len() - i,
        {
            entries.push((self.entries[i].0.clone(), self.entries[i].1.clone()));
            i += 1;
        }
        let copy = CssModuleExports { entries };
        proof {
            assert(copy@ =~= self@);
        }
        copy
    }
}

} // verus!
