//! The Directory Locator: upward search for the wrapped tool's
//! metadata directory.
//!
//! A directory path is a vector of component names, root first. The
//! locator walks from a starting directory toward the root and stops at
//! the first (deepest) candidate that has a `.git` entry directly under
//! it. Whether such an entry exists is a fact about the world outside;
//! here it is either answered from an explicit model of the existing
//! paths ([`FsModel`]) or handed in by the caller one probe at a time
//! ([`traverse_step`]), so the search itself is verified in full.
use vstd::prelude::*;

verus! {

/// The fixed name of the metadata directory searched for.
pub open spec fn git_dir_name() -> Seq<char> {
    ".git"@
}

/// A set of filesystem paths, each a sequence of component names: the
/// model the locator is verified against. Only membership matters.
pub struct FsModel {
    entries: Vec<Vec<String>>,
}

impl View for FsModel {
    type V = Set<Seq<Seq<char>>>;

    closed spec fn view(&self) -> Set<Seq<Seq<char>>> {
        self.entries.deep_view().to_set()
    }
}

impl FsModel {
    /// A model in which no path exists.
    pub fn new() -> (r: Self)
        ensures
            r@ == Set::<Seq<Seq<char>>>::empty(),
    {
        let r = FsModel { entries: Vec::new() };
        proof {
            assert(r@ =~= Set::<Seq<Seq<char>>>::empty());
        }
        r
    }

    /// Record one more existing path.
    pub fn add_path(&mut self, p: Vec<String>)
        ensures
            final(self)@ == old(self)@.insert(p.deep_view()),
    {
        let ghost before = self.entries.deep_view();
        self.entries.push(p);
        proof {
            assert(self.entries.deep_view() =~= before.push(p.deep_view()));
            assert forall|x: Seq<Seq<char>>|
                self@.contains(x) <==> old(self)@.insert(p.deep_view()).contains(x) by {
                vstd::seq_lib::lemma_seq_contains_after_push(before, p.deep_view(), x);
            }
            assert(self@ =~= old(self)@.insert(p.deep_view()));
        }
    }

    /// Whether the model holds the given path.
    pub fn contains_path(&self, p: &Vec<String>) -> (r: bool)
        ensures
            r == self@.contains(p.deep_view()),
    {
        let n = self.entries.len();
        let mut i: usize = 0;
        while i < n
            invariant
                0 <= i <= n,
                n == self.entries.len(),
                forall|j: int| 0 <= j < i ==> self.entries.deep_view()[j] != p.deep_view(),
            decreases n - i,
        {
            if path_eq(&self.entries[i], p) {
                proof {
                    assert(self.entries.deep_view()[i as int] == p.deep_view());
                    assert(self.entries.deep_view().contains(p.deep_view()));
                }
                return true;
            }
            i = i + 1;
        }
        proof {
            assert(!self.entries.deep_view().contains(p.deep_view()));
        }
        false
    }
}

/// Whether two component paths name the same path.
pub fn path_eq(a: &Vec<String>, b: &Vec<String>) -> (r: bool)
    ensures
        r == (a.deep_view() == b.deep_view()),
{
    if a.len() != b.len() {
        proof {
            assert(a.deep_view().len() != b.deep_view().len());
        }
        return false;
    }
    let n = a.len();
    let mut i: usize = 0;
    while i < n
        invariant
            0 <= i <= n,
            n == a.len() == b.len(),
            forall|j: int| 0 <= j < i ==> a.deep_view()[j] == b.deep_view()[j],
        decreases n - i,
    {
        if !(a[i] == b[i]) {
            proof {
                assert(a.deep_view()[i as int] == a@[i as int]@);
                assert(b.deep_view()[i as int] == b@[i as int]@);
            }
            return false;
        }
        i = i + 1;
    }
    proof {
        assert(a.deep_view() =~= b.deep_view());
    }
    true
}

/// Where the upward search from `start` ends: the path of the deepest
/// candidate directory, at or above `start`, that has a `.git` entry in
/// `fs` — with that entry appended, since the `.git` path itself is
/// what the caller goes on to use — or nothing when no candidate has
/// one.
pub open spec fn locate_spec(fs: Set<Seq<Seq<char>>>, start: Seq<Seq<char>>) -> Option<
    Seq<Seq<char>>,
>
    decreases start.len(),
{
    if fs.contains(start.push(git_dir_name())) {
        Some(start.push(git_dir_name()))
    } else if start.len() == 0 {
        None
    } else {
        locate_spec(fs, start.drop_last())
    }
}

/// What one round of the upward search did to the candidate directory.
#[derive(Clone, Copy, Debug, PartialEq, Eq, Structural)]
pub enum StepOutcome {
    /// A `.git` entry exists here; the candidate now names it.
    Found,
    /// No entry here; the candidate moved up to its parent.
    Ascended,
    /// No entry here and no parent to move to: the search is over.
    ReachedTop,
}

/// One round of the upward search, fed the one outside fact it needs:
/// whether a `.git` entry exists directly under the current candidate.
pub fn traverse_step(dir: &mut Vec<String>, git_exists: bool) -> (r: StepOutcome)
    ensures
        git_exists ==> r == StepOutcome::Found
            && final(dir).deep_view() == old(dir).deep_view().push(git_dir_name()),
        !git_exists && old(dir).len() > 0 ==> r == StepOutcome::Ascended
            && final(dir).deep_view() == old(dir).deep_view().drop_last(),
        !git_exists && old(dir).len() == 0 ==> r == StepOutcome::ReachedTop
            && *final(dir) == *old(dir),
{
    if git_exists {
        dir.push(String::from_str(".git"));
        proof {
            assert(dir.deep_view() =~= old(dir).deep_view().push(git_dir_name()));
        }
        StepOutcome::Found
    } else if dir.len() > 0 {
        dir.pop();
        proof {
            assert(dir.deep_view() =~= old(dir).deep_view().drop_last());
        }
        StepOutcome::Ascended
    } else {
        StepOutcome::ReachedTop
    }
}

/// Answer one probe of the search against the model: whether a `.git`
/// entry exists directly under `dir`. The candidate is left as it was.
pub fn probe_git(dir: &mut Vec<String>, fs: &FsModel) -> (r: bool)
    ensures
        final(dir)@ == old(dir)@,
        r == fs@.contains(old(dir).deep_view().push(git_dir_name())),
{
    dir.push(String::from_str(".git"));
    proof {
        assert(dir.deep_view() =~= old(dir).deep_view().push(git_dir_name()));
    }
    let r = fs.contains_path(dir);
    dir.pop();
    proof {
        assert(dir@ =~= old(dir)@);
    }
    r
}

/// The whole upward search, against a model of the existing paths.
///
/// Returns whether some directory at or above the start has a `.git`
/// entry; when it does, the candidate is left naming that entry's path,
/// and when it does not, the candidate has been walked all the way up
/// to the root.
pub fn traverse_to_git_dir(dir: &mut Vec<String>, fs: &FsModel) -> (found: bool)
    ensures
        found == (locate_spec(fs@, old(dir).deep_view()) is Some),
        found ==> locate_spec(fs@, old(dir).deep_view()) == Some(final(dir).deep_view()),
        !found ==> final(dir)@.len() == 0,
{
    let ghost orig = dir.deep_view();
    loop
        invariant
            orig == old(dir).deep_view(),
            locate_spec(fs@, orig) == locate_spec(fs@, dir.deep_view()),
        decreases dir.len(),
    {
        let git_exists = probe_git(dir, fs);
        let ghost here = dir.deep_view();
        match traverse_step(dir, git_exists) {
            StepOutcome::Found => {
                proof {
                    assert(locate_spec(fs@, here) == Some(here.push(git_dir_name())));
                }
                return true;
            },
            StepOutcome::Ascended => {
                proof {
                    assert(locate_spec(fs@, here) == locate_spec(fs@, here.drop_last()));
                }
            },
            StepOutcome::ReachedTop => {
                proof {
                    assert(locate_spec(fs@, here) is None);
                }
                return false;
            },
        }
    }
}

/// The Directory Locator's contract in one statement: the search finds
/// a `.git` entry exactly when some directory at or above the start has
/// one, and the one it finds is the deepest such — no candidate below
/// the root it reports also has an entry.
pub proof fn lemma_locate_characterised(fs: Set<Seq<Seq<char>>>, start: Seq<Seq<char>>)
    ensures
        match locate_spec(fs, start) {
            Some(p) => exists|i: int|
                0 <= i <= start.len() && p == start.take(i).push(git_dir_name())
                    && fs.contains(p) && (forall|j: int|
                    i < j <= start.len() ==> !fs.contains(
                        #[trigger] start.take(j).push(git_dir_name()),
                    )),
            None => forall|i: int|
                0 <= i <= start.len() ==> !fs.contains(
                    #[trigger] start.take(i).push(git_dir_name()),
                ),
        },
    decreases start.len(),
{
    let git = git_dir_name();
    if fs.contains(start.push(git)) {
        let i = start.len() as int;
        assert(start.take(i) =~= start);
        assert(locate_spec(fs, start) == Some(start.take(i).push(git)));
        assert(fs.contains(start.take(i).push(git)));
    } else if start.len() == 0 {
        assert(forall|i: int| 0 <= i <= start.len() ==> start.take(i) =~= start);
    } else {
        let parent = start.drop_last();
        lemma_locate_characterised(fs, parent);
        assert(start.take(start.len() as int) =~= start);
        match locate_spec(fs, parent) {
            Some(p) => {
                let i = choose|i: int|
                    0 <= i <= parent.len() && p == parent.take(i).push(git) && fs.contains(p) && (
                    forall|j: int|
                        i < j <= parent.len() ==> !fs.contains(
                            #[trigger] parent.take(j).push(git),
                        ));
                assert(start.take(i) =~= parent.take(i));
                assert(p == start.take(i).push(git));
                assert forall|j: int| i < j <= start.len() implies !fs.contains(
                    #[trigger] start.take(j).push(git),
                ) by {
                    if j <= parent.len() {
                        assert(start.take(j) =~= parent.take(j));
                        assert(!fs.contains(parent.take(j).push(git)));
                    } else {
                        assert(start.take(j) =~= start);
                    }
                }
                assert(0 <= i <= start.len() && p == start.take(i).push(git) && fs.contains(p) && (
                forall|j: int|
                    i < j <= start.len() ==> !fs.contains(#[trigger] start.take(j).push(git))));
            },
            None => {
                assert forall|i: int| 0 <= i <= start.len() implies !fs.contains(
                    #[trigger] start.take(i).push(git),
                ) by {
                    if i <= parent.len() {
                        assert(start.take(i) =~= parent.take(i));
                        assert(!fs.contains(parent.take(i).push(git)));
                    } else {
                        assert(start.take(i) =~= start);
                    }
                }
            },
        }
    }
}

} // verus!
