//! What is known of the file system while compile arguments are looked up.

use crate::text::lowercase;
use crate::text::lowercase_text;
use crate::text::owned;
use crate::util::name_map::NameMap;
use vstd::prelude::*;

verus! {

/// The strings of a map, as texts.
pub open spec fn strings_view(m: Map<Seq<char>, String>) -> Map<Seq<char>, Seq<char>> {
    Map::new(|k: Seq<char>| m.dom().contains(k), |k: Seq<char>| m[k]@)
}

/// A look at the file system: the response files that are there, what paths
/// resolve to, and which directories hold a `.git`.
#[derive(Debug)]
pub struct Disk {
    lists: NameMap<String>,
    real: NameMap<String>,
    repos: NameMap<bool>,
}

/// The mathematical value of a [`Disk`].
pub struct DiskView {
    /// The text of each file that is there.
    pub lists: Map<Seq<char>, Seq<char>>,
    /// What a path resolves to; a path that is not here stands for itself.
    pub real: Map<Seq<char>, Seq<char>>,
    /// The directories, by key, that hold a `.git`.
    pub repos: Set<Seq<char>>,
}

impl View for Disk {
    type V = DiskView;

    closed spec fn view(&self) -> DiskView {
        DiskView {
            lists: strings_view(self.lists@),
            real: strings_view(self.real@),
            repos: self.repos@.dom(),
        }
    }
}

impl DiskView {
    /// The absolute path key of a file, the same for every case of its letters.
    pub open spec fn key(self, path: Seq<char>) -> Seq<char> {
        lowercase_text(
            if self.real.dom().contains(path) {
                self.real[path]
            } else {
                path
            },
        )
    }
}

impl Disk {
    /// The parts are in order.
    pub closed spec fn wf(&self) -> bool {
        self.lists.wf() && self.real.wf() && self.repos.wf()
    }

    /// Nothing is known yet.
    pub fn new() -> (r: Disk)
        ensures
            r.wf(),
            r@.lists == Map::<Seq<char>, Seq<char>>::empty(),
            r@.real == Map::<Seq<char>, Seq<char>>::empty(),
            r@.repos == Set::<Seq<char>>::empty(),
    {
        let r = Disk { lists: NameMap::new(), real: NameMap::new(), repos: NameMap::new() };
        assert(r@.lists =~= Map::<Seq<char>, Seq<char>>::empty());
        assert(r@.real =~= Map::<Seq<char>, Seq<char>>::empty());
        assert(r@.repos =~= Set::<Seq<char>>::empty());
        r
    }

    /// A file is there, with a text.
    pub fn add_file(&mut self, path: &str, text: &str)
        requires
            old(self).wf(),
        ensures
            final(self).wf(),
            final(self)@ == (DiskView { lists: old(self)@.lists.insert(path@, text@), ..old(self)@ }),
    {
        let ghost before = self.lists@;
        let value = owned(text);
        let ghost v = value;
        self.lists.insert(path, value);
        assert(strings_view(before.insert(path@, v)) =~= strings_view(before).insert(path@, text@));
    }

    /// A path resolves to another.
    pub fn add_real(&mut self, path: &str, resolved: &str)
        requires
            old(self).wf(),
        ensures
            final(self).wf(),
            final(self)@ == (DiskView {
                real: old(self)@.real.insert(path@, resolved@),
                ..old(self)@
            }),
    {
        let ghost before = self.real@;
        let value = owned(resolved);
        let ghost v = value;
        self.real.insert(path, value);
        assert(strings_view(before.insert(path@, v)) =~= strings_view(before).insert(
            path@,
            resolved@,
        ));
    }

    /// A directory, by key, holds a `.git`.
    pub fn add_repo(&mut self, dir: &str)
        requires
            old(self).wf(),
        ensures
            final(self).wf(),
            final(self)@ == (DiskView { repos: old(self)@.repos.insert(dir@), ..old(self)@ }),
    {
        let ghost before = self.repos@;
        self.repos.insert(dir, true);
        assert(self.repos@.dom() =~= before.dom().insert(dir@));
    }

    /// The text of a file, if it is there.
    pub fn file(&self, path: &str) -> (r: Option<&str>)
        requires
            self.wf(),
        ensures
            match r {
                Some(t) => self@.lists.dom().contains(path@) && t@ == self@.lists[path@],
                None => !self@.lists.dom().contains(path@),
            },
    {
        match self.lists.get(path) {
            Some(t) => Some(t.as_str()),
            None => None,
        }
    }

    /// Whether a directory, by key, holds a `.git`.
    pub fn is_repo(&self, dir: &str) -> (r: bool)
        requires
            self.wf(),
        ensures
            r == self@.repos.contains(dir@),
    {
        self.repos.contains(dir)
    }

    /// The absolute path key of a file, the same for every case of its letters.
    pub fn file_key(&self, path: &str) -> (r: String)
        requires
            self.wf(),
        ensures
            r@ == self@.key(path@),
    {
        match self.real.get(path) {
            Some(p) => lowercase(p.as_str()),
            None => lowercase(path),
        }
    }
}

} // verus!
