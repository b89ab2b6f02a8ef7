//! A commit as the selection and the publisher see it.
use vstd::prelude::*;

use crate::timestamp::Timestamp;

verus! {

/// One commit of the current repository: its full and short identifiers, the
/// first line of its message, the paths it touches, its author and its author
/// time.
#[derive(Debug)]
pub struct Commit {
    pub hash: String,
    pub short_hash: String,
    pub message: String,
    pub files: Vec<String>,
    pub author: String,
    pub timestamp: Timestamp,
}

/// What a commit holds, as plain values.
pub ghost struct CommitView {
    pub hash: Seq<char>,
    pub short_hash: Seq<char>,
    pub message: Seq<char>,
    pub files: Seq<Seq<char>>,
    pub author: Seq<char>,
    pub timestamp: (int, int, int),
}

/// The views of a sequence of strings.
pub open spec fn views_of(s: Seq<String>) -> Seq<Seq<char>> {
    s.map_values(|x: String| x@)
}

impl View for Commit {
    type V = CommitView;

    open spec fn view(&self) -> CommitView {
        CommitView {
            hash: self.hash@,
            short_hash: self.short_hash@,
            message: self.message@,
            files: views_of(self.files@),
            author: self.author@,
            timestamp: self.timestamp@,
        }
    }
}

/// The views of a sequence of commits.
pub open spec fn commit_views(s: Seq<Commit>) -> Seq<CommitView> {
    s.map_values(|c: Commit| c@)
}

/// A copy of a list of strings.
pub fn copy_strings(v: &Vec<String>) -> (r: Vec<String>)
    ensures
        r@ == v@,
{
    let mut r: Vec<String> = Vec::new();
    for i in 0..v.len()
        invariant
            r@ == v@.take(i as int),
    {
        r.push(v[i].clone());
        assert(r@ =~= v@.take(i + 1));
    }
    assert(v@.take(v.len() as int) =~= v@);
    r
}

impl Commit {
    /// A copy of this commit.
    pub fn duplicate(&self) -> (r: Commit)
        ensures
            r@ == self@,
    {
        Commit {
            hash: self.hash.clone(),
            short_hash: self.short_hash.clone(),
            message: self.message.clone(),
            files: copy_strings(&self.files),
            author: self.author.clone(),
            timestamp: self.timestamp,
        }
    }
}

} // verus!
