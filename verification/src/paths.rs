//! Paths on the host, named piece by piece, whatever the separator is there.
use vstd::prelude::*;

use crate::text::texts;

verus! {

/// A path: where it begins, and the names to go down from there, in order.
#[derive(Debug)]
pub struct HostPath {
    pub base: String,
    pub names: Vec<String>,
}

/// A path by its characters.
#[verifier::ext_equal]
pub struct PathView {
    pub base: Seq<char>,
    pub names: Seq<Seq<char>>,
}

impl View for HostPath {
    type V = PathView;

    open spec fn view(&self) -> PathView {
        PathView { base: self.base@, names: texts(self.names@) }
    }
}

impl PathView {
    /// The path one name further down.
    pub open spec fn join(self, name: Seq<char>) -> PathView {
        PathView { base: self.base, names: self.names.push(name) }
    }

    /// The path that a text names by itself.
    pub open spec fn of(base: Seq<char>) -> PathView {
        PathView { base, names: Seq::empty() }
    }
}

impl HostPath {
    /// The path that `base` names by itself.
    pub fn new(base: &str) -> (r: HostPath)
        ensures
            r@ == PathView::of(base@),
    {
        HostPath { base: base.to_string(), names: Vec::new() }
    }

    /// A copy of the path.
    pub fn copy(&self) -> (r: HostPath)
        ensures
            r@ == self@,
    {
        let mut names: Vec<String> = Vec::new();
        let mut i: usize = 0;
        while i < self.names.len()
            invariant
                i <= self.names@.len(),
                texts(names@) == texts(self.names@).take(i as int),
            decreases self.names@.len() - i,
        {
            let ghost had = texts(names@);
            let name = self.names[i].as_str().to_string();
            names.push(name);
            assert(texts(names@) == had.push(name@));
            i += 1;
        }
        HostPath { base: self.base.as_str().to_string(), names }
    }

    /// The path one name further down.
    pub fn join(&self, name: &str) -> (r: HostPath)
        ensures
            r@ == self@.join(name@),
    {
        let mut r = self.copy();
        let ghost had = texts(r.names@);
        let last = name.to_string();
        r.names.push(last);
        assert(texts(r.names@) == had.push(name@));
        r
    }
}

/// Going down by a name adds it behind all names before it, and nothing else
/// changes.
pub proof fn law_join_adds_a_name(path: PathView, name: Seq<char>)
    ensures
        path.join(name).base == path.base,
        path.join(name).names.len() == path.names.len() + 1,
        path.join(name).names.last() == name,
        path.join(name).names.drop_last() == path.names,
        PathView::of(name).base == name,
        PathView::of(name).names.len() == 0,
{
}

/// What is said of a path's characters is said of all of it.
pub proof fn law_path_is_seen_whole(path: HostPath)
    ensures
        path@.base == path.base@,
        path@.names.len() == path.names@.len(),
        forall|i: int| 0 <= i < path.names@.len() ==> (#[trigger] path@.names[i]) == path.names@[i]@,
{
}

} // verus!
