//! Finding and loading the class-name table of a stylesheet among the files
//! that the caller has found below its working directory.

use crate::mapping::{CssModuleExports, Entries};
use crate::text::{mapping_file_name, mapping_file_name_of, same_text};
use vstd::prelude::*;

verus! {

/// Why a module could not be transformed.
#[derive(Debug, PartialEq, Eq)]
pub enum TransformError {
    /// No file has the name of the stylesheet's class-name table.
    MappingNotFound,
    /// The file with the class-name table could not be read.
    MappingReadFailure,
    /// The file does not hold a class-name table.
    MappingParseFailure,
    /// The source refers to a class that the table does not hold.
    UnresolvedClassKey {
        /// The class name that the source refers to.
        key: String,
    },
}

/// The mathematical value of a [`TransformError`].
pub ghost enum TransformErrorView {
    MappingNotFound,
    MappingReadFailure,
    MappingParseFailure,
    UnresolvedClassKey { key: Seq<char> },
}

impl View for TransformError {
    type V = TransformErrorView;

    open spec fn view(&self) -> TransformErrorView {
        match self {
            TransformError::MappingNotFound => TransformErrorView::MappingNotFound,
            TransformError::MappingReadFailure => TransformErrorView::MappingReadFailure,
            TransformError::MappingParseFailure => TransformErrorView::MappingParseFailure,
            TransformError::UnresolvedClassKey { key } => TransformErrorView::UnresolvedClassKey {
                key: key@,
            },
        }
    }
}

impl Clone for TransformError {
    fn clone(&self) -> (copy: TransformError)
        ensures
            copy@ == self@,
    {
        match self {
            TransformError::MappingNotFound => TransformError::MappingNotFound,
            TransformError::MappingReadFailure => TransformError::MappingReadFailure,
            TransformError::MappingParseFailure => TransformError::MappingParseFailure,
            TransformError::UnresolvedClassKey { key } => TransformError::UnresolvedClassKey {
                key: key.clone(),
            },
        }
    }
}

/// What reading and parsing a file gave.
#[derive(Debug, PartialEq, Eq)]
pub enum MappingContent {
    /// The file holds this class-name table.
    Parsed(CssModuleExports),
    /// The file could not be read.
    Unreadable,
    /// The file was read and does not hold a class-name table.
    Malformed,
}

/// The mathematical value of a [`MappingContent`].
pub ghost enum MappingContentView {
    Parsed(Entries),
    Unreadable,
    Malformed,
}

impl View for MappingContent {
    type V = MappingContentView;

    open spec fn view(&self) -> MappingContentView {
        match self {
            MappingContent::Parsed(table) => MappingContentView::Parsed(table@),
            MappingContent::Unreadable => MappingContentView::Unreadable,
            MappingContent::Malformed => MappingContentView::Malformed,
        }
    }
}

impl Clone for MappingContent {
    fn clone(&self) -> (copy: MappingContent)
        ensures
            copy@ == self@,
    {
        match self {
            MappingContent::Parsed(table) => MappingContent::Parsed(table.clone()),
            MappingContent::Unreadable => MappingContent::Unreadable,
            MappingContent::Malformed => MappingContent::Malformed,
        }
    }
}

/// A file below the working directory: its name, without the directories
/// that lead to it, and what it holds.
#[derive(Debug, PartialEq, Eq)]
pub struct MappingFile {
    pub name: String,
    pub content: MappingContent,
}

/// The mathematical value of a [`MappingFile`].
pub ghost struct MappingFileView {
    pub name: Seq<char>,
    pub content: MappingContentView,
}

impl View for MappingFile {
    type V = MappingFileView;

    open spec fn view(&self) -> MappingFileView {
        MappingFileView { name: self.name@, content: self.content@ }
    }
}

impl Clone for MappingFile {
    fn clone(&self) -> (copy: MappingFile)
        ensures
            copy@ == self@,
    {
        MappingFile { name: self.name.clone(), content: self.content.clone() }
    }
}

/// The files in the order in which the directory walk met them.
pub open spec fn files_view(files: Seq<MappingFile>) -> Seq<MappingFileView> {
    files.map_values(|f: MappingFile| f@)
}

/// The position of the first of `names` that equals `file`.
pub open spec fn first_match(names: Seq<Seq<char>>, file: Seq<char>) -> Option<int>
    decreases names.len(),
{
    if names.len() == 0 {
        None
    } else if names[0] == file {
        Some(0int)
    } else {
        match first_match(names.skip(1), file) {
            Some(i) => Some(i + 1),
            None => None,
        }
    }
}

/// `first_match` finds a position that holds the name, and no earlier one
/// does; it finds none only where no position holds the name.
pub proof fn lemma_first_match(names: Seq<Seq<char>>, file: Seq<char>)
    ensures
        match first_match(names, file) {
            Some(i) => 0 <= i < names.len() && names[i] == file && forall|j: int|
                0 <= j < i ==> names[j] != file,
            None => forall|j: int| 0 <= j < names.len() ==> names[j] != file,
        },
    decreases names.len(),
{
    if names.len() > 0 && names[0] != file {
        let rest = names.skip(1);
        lemma_first_match(rest, file);
        match first_match(rest, file) {
            Some(i) => {
                assert forall|j: int| 0 <= j < i + 1 implies names[j] != file by {
                    if j > 0 {
                        assert(rest[j - 1] == names[j]);
                    }
                }
            },
            None => {
                assert forall|j: int| 0 <= j < names.len() implies names[j] != file by {
                    if j > 0 {
                        assert(rest[j - 1] == names[j]);
                    }
                }
            },
        }
    }
}

/// Looks for a file named `file` among `names`, the file names that a walk
/// of the directory tree met, in the order of the walk. The first file with
/// that name wins, wherever it lies.
pub fn find_file(file: &str, names: &Vec<String>) -> (found: Option<usize>)
    ensures
        match found {
            Some(i) => first_match(names.deep_view(), file@) == Some(i as int),
            None => first_match(names.deep_view(), file@) is None,
        },
{
    let ghost all = names.deep_view();
    let mut i: usize = 0;
    proof {
        assert(all.skip(0) =~= all);
    }
    while i < names.len()
        invariant
            all == names.deep_view(),
            i <= names@.len(),
            match first_match(all.skip(i as int), file@) {
                Some(k) => first_match(all, file@) == Some(k + i),
                None => first_match(all, file@) is None,
            },
        decreases names.len() - i,
    {
        proof {
            assert(all.skip(i as int).skip(1) =~= all.skip(i + 1));
            assert(all.skip(i as int)[0] == names@[i as int]@);
        }
        if same_text(names[i].as_str(), file) {
            return Some(i);
        }
        i += 1;
    }
    None
}

/// The names of `files`, in order.
pub open spec fn names_of(files: Seq<MappingFileView>) -> Seq<Seq<char>> {
    files.map_values(|f: MappingFileView| f.name)
}

/// What loading the class-name table of the stylesheet imported as
/// `specifier` gives, where `files` are the files below the working
/// directory: the table that the first file with the table's file name
/// holds.
pub open spec fn load(files: Seq<MappingFileView>, specifier: Seq<char>) -> Result<
    Entries,
    TransformErrorView,
> {
    match first_match(names_of(files), mapping_file_name_of(specifier)) {
        None => Err(TransformErrorView::MappingNotFound),
        Some(i) => match files[i].content {
            MappingContentView::Parsed(entries) => Ok(entries),
            MappingContentView::Unreadable => Err(TransformErrorView::MappingReadFailure),
            MappingContentView::Malformed => Err(TransformErrorView::MappingParseFailure),
        },
    }
}

fn file_names(files: &Vec<MappingFile>) -> (names: Vec<String>)
    ensures
        names.deep_view() == names_of(files_view(files@)),
{
    let mut names: Vec<String> = Vec::new();
    let mut i: usize = 0;
    while i < files.len()
        invariant
            i <= files@.len(),
            names@.len() == i,
            forall|k: int| 0 <= k < i ==> names@[k]@ == files@[k].name@,
        decreases files.len() - i,
    {
        names.push(files[i].name.clone());
        i += 1;
    }
    proof {
        assert(names.deep_view() =~= names_of(files_view(files@)));
    }
    names
}

/// Loads the class-name table of the stylesheet that is imported as
/// `css_file_path` from `files`, the files below the working directory in
/// the order of the walk.
pub fn get_css_module_mapping(css_file_path: &str, files: &Vec<MappingFile>) -> (loaded: Result<
    CssModuleExports,
    TransformError,
>)
    ensures
        match loaded {
            Ok(table) => load(files_view(files@), css_file_path@) == Ok::<
                Entries,
                TransformErrorView,
            >(table@),
            Err(e) => load(files_view(files@), css_file_path@) == Err::<
                Entries,
                TransformErrorView,
            >(e@),
        },
{
    let json_file = mapping_file_name(css_file_path);
    let names = file_names(files);
    proof {
        lemma_first_match(names.deep_view(), json_file@);
    }
    match find_file(json_file.as_str(), &names) {
        None => Err(TransformError::MappingNotFound),
        Some(i) => match &files[i].content {
            MappingContent::Parsed(table) => Ok(table.clone()),
            MappingContent::Unreadable => Err(TransformError::MappingReadFailure),
            MappingContent::Malformed => Err(TransformError::MappingParseFailure),
        },
    }
}

} // verus!
