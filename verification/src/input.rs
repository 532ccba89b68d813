//! What a tool is handed to work on: the files it was to read, each with
//! its content or with the reason why there is none.
use vstd::prelude::*;
use vstd::string::*;

verus! {

/// What came of reading a file.
#[derive(Debug)]
pub enum Reading {
    /// The file could not be opened.
    OpenFailed { cause: String },
    /// The file was opened and reading it failed.
    ReadFailed { cause: String },
    /// The file's whole content.
    Text { content: String },
}

/// A file to read, by the name it was asked for, with what came of reading
/// it.
#[derive(Debug)]
pub struct SourceFile {
    pub path: String,
    pub reading: Reading,
}

pub enum ReadingModel {
    OpenFailed { cause: Seq<char> },
    ReadFailed { cause: Seq<char> },
    Text { content: Seq<char> },
}

pub struct SourceFileModel {
    pub path: Seq<char>,
    pub reading: ReadingModel,
}

impl View for Reading {
    type V = ReadingModel;

    open spec fn view(&self) -> ReadingModel {
        match *self {
            Reading::OpenFailed { cause } => ReadingModel::OpenFailed { cause: cause@ },
            Reading::ReadFailed { cause } => ReadingModel::ReadFailed { cause: cause@ },
            Reading::Text { content } => ReadingModel::Text { content: content@ },
        }
    }
}

impl View for SourceFile {
    type V = SourceFileModel;

    open spec fn view(&self) -> SourceFileModel {
        SourceFileModel { path: self.path@, reading: self.reading@ }
    }
}

/// Whether `i` is the first file whose reading failed after it was opened.
pub open spec fn first_read_failure(files: Seq<SourceFileModel>, i: int) -> bool {
    &&& 0 <= i < files.len()
    &&& files[i].reading is ReadFailed
    &&& forall|j: int| 0 <= j < i ==> !(#[trigger] files[j].reading is ReadFailed)
}

} // verus!
