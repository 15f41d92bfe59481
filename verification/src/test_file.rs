//! Test-fixture descriptions: a fetched source file named by its URL, and a
//! collection of them with a keyword-filtered "minimal" selection. Reading
//! the fixture list and fetching file contents are I/O left to the caller;
//! this module holds the fetched values and the selection logic.

use vstd::prelude::*;

use crate::text::{spec_contains, str_contains};

verus! {

/// One fetched test source file.
pub struct TestFile {
    pub url: String,
    pub file_name: String,
    pub source_text: String,
}

/// A collection of fetched test source files.
pub struct TestFiles {
    files: Vec<TestFile>,
}

/// True when the file belongs to the minimal selection: its URL mentions
/// one of the three keyword libraries.
pub open spec fn spec_is_minimal(f: TestFile) -> bool {
    spec_contains(f.url@, "react"@) || spec_contains(f.url@, "antd"@) || spec_contains(
        f.url@,
        "typescript"@,
    )
}

/// The minimal-selection predicate, as one shared closure value.
pub open spec fn spec_minimal_pred() -> spec_fn(TestFile) -> bool {
    |f: TestFile| spec_is_minimal(f)
}

/// Whether a file's URL mentions one of the keyword libraries.
pub fn is_minimal_target(f: &TestFile) -> (r: bool)
    ensures
        r == spec_is_minimal(*f),
{
    str_contains(f.url.as_str(), "react") || str_contains(f.url.as_str(), "antd") || str_contains(
        f.url.as_str(),
        "typescript",
    )
}

impl View for TestFiles {
    type V = Seq<TestFile>;

    closed spec fn view(&self) -> Seq<TestFile> {
        self.files@
    }
}

impl TestFiles {
    /// Wraps a list of fetched files, all of them kept.
    pub fn new(files: Vec<TestFile>) -> (r: TestFiles)
        ensures
            r@ == files@,
    {
        TestFiles { files }
    }

    /// Keeps only the files of the minimal selection, in order.
    pub fn minimal(files: Vec<TestFile>) -> (r: TestFiles)
        ensures
            r@ == files@.filter(spec_minimal_pred()),
    {
        let ghost orig = files@;
        let mut files = files;
        let mut kept: Vec<TestFile> = Vec::new();
        proof {
            reveal(Seq::filter);
            assert(orig.skip(0) =~= orig);
            assert(orig.take(0).filter(spec_minimal_pred()) =~= Seq::<TestFile>::empty());
        }
        while files.len() > 0
            invariant
                files@.len() <= orig.len(),
                files@ == orig.skip(orig.len() - files@.len()),
                kept@ == orig.take(orig.len() - files@.len()).filter(spec_minimal_pred()),
            decreases files@.len(),
        {
            let ghost k = orig.len() - files@.len();
            let f = files.remove(0);
            proof {
                assert(f == orig[k]);
                assert(files@ =~= orig.skip(k + 1));
                reveal(Seq::filter);
                assert(orig.take(k + 1).drop_last() =~= orig.take(k));
                assert(orig.take(k + 1).last() == orig[k]);
            }
            if is_minimal_target(&f) {
                kept.push(f);
            }
        }
        proof {
            assert(orig.take(orig.len() as int) =~= orig);
        }
        TestFiles { files: kept }
    }

    /// The fetched files this collection holds.
    pub fn files(&self) -> (r: &Vec<TestFile>)
        ensures
            r@ == self@,
    {
        &self.files
    }
}

} // verus!
