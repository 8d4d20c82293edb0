//! The versioned store. One file exists per schema version, named by
//! its tag; the store resolves which version is active, applies any
//! pending migrations (renaming the file forward through the version
//! list), and reads or writes the whole collection against the active
//! version. The store works on a snapshot of those files' contents;
//! the thin shell around the library loads the snapshot from disk and
//! writes it back after every event.
use vstd::prelude::*;

use crate::chars::to_chars;
use crate::codec::{
    enc_collection, encode_collection, is_ws, is_ws_exec, lemma_parse_collection_wf,
    parse_collection, parse_collection_exec, skip_ws, skip_ws_exec,
};
use crate::migration::{
    lemma_version_index_found, lemma_version_index_some, version_index, Migration,
};
use crate::project::{collection_wf, Project};

verus! {

/// First slot holding a file, if any.
pub open spec fn first_present(fs: Seq<Option<Seq<char>>>) -> Option<int>
    decreases fs.len(),
{
    if fs.len() == 0 {
        None
    } else if fs[0] is Some {
        Some(0int)
    } else {
        match first_present(fs.drop_first()) {
            Some(i) => Some(i + 1),
            None => None,
        }
    }
}

proof fn lemma_first_present_at(fs: Seq<Option<Seq<char>>>, i: int)
    requires
        0 <= i < fs.len(),
        fs[i] is Some,
        forall|j: int| 0 <= j < i ==> fs[j] is None,
    ensures
        first_present(fs) == Some(i),
    decreases fs.len(),
{
    if i > 0 {
        lemma_first_present_at(fs.drop_first(), i - 1);
    }
}

proof fn lemma_first_present_none(fs: Seq<Option<Seq<char>>>)
    requires
        forall|j: int| 0 <= j < fs.len() ==> fs[j] is None,
    ensures
        first_present(fs) is None,
    decreases fs.len(),
{
    if fs.len() > 0 {
        lemma_first_present_none(fs.drop_first());
    }
}

/// Shape of a raw persisted document: Some(is_empty) when, after
/// trimming whitespace, the text is an array `[ ... ]`; None when it is
/// not, which the store treats as corrupt.
pub open spec fn doc_shape(s: Seq<char>) -> Option<bool> {
    let b = skip_ws(s, 0);
    let e = trim_end(s, s.len() as int);
    if b < e && s[b] == '[' && s[e - 1] == ']' {
        Some(skip_ws(s, b + 1) == e - 1)
    } else {
        None
    }
}

/// Position after the last non-whitespace character before `pos`.
pub open spec fn trim_end(s: Seq<char>, pos: int) -> int
    decreases pos,
    when 0 <= pos <= s.len()
{
    if pos > 0 && is_ws(s[pos - 1]) {
        trim_end(s, pos - 1)
    } else {
        pos
    }
}

/// Executable document-shape test.
fn doc_shape_exec(content: &str) -> (r: Option<bool>)
    ensures
        r == doc_shape(content@),
{
    let s = to_chars(content);
    let b = skip_ws_exec(&s, 0);
    let mut e = s.len();
    while e > 0 && is_ws_exec(s[e - 1])
        invariant
            0 <= e <= s@.len(),
            trim_end(s@, s@.len() as int) == trim_end(s@, e as int),
        decreases e,
    {
        e = e - 1;
    }
    if b < e && s[b] == '[' && s[e - 1] == ']' {
        let m = skip_ws_exec(&s, b + 1);
        Some(m == e - 1)
    } else {
        None
    }
}

/// The versioned store: the known version tags (oldest first), the
/// contents of each tag's file, and which tag is active. Built once at
/// startup by `check`, then threaded into every read and write.
pub struct Json {
    versions: Vec<String>,
    files: Vec<Option<String>>,
    active: usize,
}

impl Json {
    /// A resolved store: lists aligned, the active slot in range and
    /// holding a file.
    pub closed spec fn wf(self) -> bool {
        &&& self.versions@.len() == self.files@.len()
        &&& self.versions@.len() >= 1
        &&& (self.active as int) < self.versions@.len()
        &&& self.files@[self.active as int] is Some
    }

    pub closed spec fn versions_view(self) -> Seq<Seq<char>> {
        self.versions.deep_view()
    }

    pub closed spec fn files_view(self) -> Seq<Option<Seq<char>>> {
        self.files.deep_view()
    }

    pub closed spec fn active_index(self) -> int {
        self.active as int
    }

    /// The text of the active version's file.
    pub closed spec fn active_content(self) -> Seq<char> {
        self.files.deep_view()[self.active as int]->0
    }

    /// The number of known versions.
    pub fn version_count(&self) -> (r: usize)
        ensures
            r == self.versions_view().len(),
    {
        self.versions.len()
    }

    /// The index of the active version.
    pub fn active_version(&self) -> (r: usize)
        ensures
            r == self.active_index(),
    {
        self.active
    }

    /// Resolve which on-disk version is active and bring it up to
    /// date. Given the known version tags (distinct, oldest first) and
    /// the present file contents per tag: when no file exists, create
    /// an empty collection at the newest version (first-run bootstrap);
    /// when the first file found holds an empty array or is already the
    /// newest, keep it; when it is not an array at all, fail (None:
    /// corrupt state, fatal to the caller); otherwise apply every
    /// remaining migration in order, moving the document forward one
    /// version at a time. The flag reports whether any migration ran.
    pub fn check(versions: Vec<String>, files: Vec<Option<String>>) -> (r: Option<(Json, bool)>)
        requires
            versions@.len() == files@.len(),
            versions@.len() >= 1,
            forall|j: int, k: int|
                0 <= j < k < versions.deep_view().len() ==> versions.deep_view()[j]
                    != versions.deep_view()[k],
        ensures
            ({
                let fv = files.deep_view();
                let n = versions.deep_view().len() as int;
                match first_present(fv) {
                    None => (r matches Some((j, applied)) && {
                        &&& !applied
                        &&& j.wf()
                        &&& j.versions_view() == versions.deep_view()
                        &&& j.active_index() == n - 1
                        &&& j.files_view() == fv.update(n - 1, Some(seq!['[', ']']))
                    }),
                    Some(i) => {
                        let content = fv[i]->0;
                        match doc_shape(content) {
                            None => r is None,
                            Some(empty) => if empty || i == n - 1 {
                                (r matches Some((j, applied)) && {
                                    &&& !applied
                                    &&& j.wf()
                                    &&& j.versions_view() == versions.deep_view()
                                    &&& j.active_index() == i
                                    &&& j.files_view() == fv
                                })
                            } else {
                                (r matches Some((j, applied)) && {
                                    &&& applied
                                    &&& j.wf()
                                    &&& j.versions_view() == versions.deep_view()
                                    &&& j.active_index() == n - 1
                                    &&& j.files_view().len() == n
                                    &&& (forall|k: int|
                                        0 <= k < i ==> #[trigger] j.files_view()[k] == fv[k])
                                    &&& (forall|k: int|
                                        i <= k < n - 1 ==> #[trigger] j.files_view()[k] is None)
                                    &&& j.files_view()[n - 1] == Some(content)
                                })
                            },
                        }
                    },
                }
            }),
    {
        let ghost fv = files.deep_view();
        let mut files = files;
        let n = versions.len();
        // Scan for the first version whose file exists.
        let mut i: usize = 0;
        while i < n && files[i].is_none()
            invariant
                n == versions@.len() == files@.len(),
                files.deep_view() == fv,
                i <= n,
                forall|j: int| 0 <= j < i ==> fv[j] is None,
            decreases n - i,
        {
            proof {
                assert(fv[i as int] == files@[i as int].deep_view());
            }
            i = i + 1;
        }
        if i >= n {
            // First run: create an empty collection at the newest version.
            proof {
                lemma_first_present_none(fv);
                reveal_strlit("[]");
                assert("[]"@ =~= seq!['[', ']']);
            }
            let last = n - 1;
            files[last] = Some(String::from_str("[]"));
            proof {
                assert(files.deep_view() =~= fv.update(n - 1, Some(seq!['[', ']'])));
            }
            return Some((Json { versions, files, active: last }, false));
        }
        proof {
            assert(fv[i as int] == files@[i as int].deep_view());
            lemma_first_present_at(fv, i as int);
        }
        let content = match &files[i] {
            Some(c) => c.clone(),
            None => {
                proof {
                    assert(false);
                }
                String::new()
            },
        };
        match doc_shape_exec(content.as_str()) {
            None => {
                // Not an array document: corrupt state, fatal.
                return None;
            },
            Some(true) => {
                // An empty collection needs no migration.
                return Some((Json { versions, files, active: i }, false));
            },
            Some(false) => {},
        }
        let migrations = Migration::get_migrations(&versions, &versions[i], &content);
        proof {
            lemma_version_index_found(versions.deep_view(), versions.deep_view()[i as int],
                i as int);
            lemma_version_index_some(versions.deep_view(), versions.deep_view()[i as int]);
            assert(versions.deep_view()[i as int] == versions@[i as int]@);
            assert(version_index(versions.deep_view(), versions@[i as int]@) == Some(i as int));
        }
        if migrations.len() == 0 {
            // Already at the newest version.
            return Some((Json { versions, files, active: i }, false));
        }
        // Apply each migration: the document text moves to the next
        // version's file and the old file goes away.
        let mut active = i;
        let mut k: usize = 0;
        while k < migrations.len()
            invariant
                n == versions@.len() == files@.len(),
                migrations.deep_view().len() == n - 1 - i,
                i < n,
                forall|j: int|
                    0 <= j < migrations.deep_view().len() ==> #[trigger] migrations.deep_view()[j]
                        == (versions.deep_view()[i + 1 + j], content@),
                k <= migrations@.len(),
                active == i + k,
                files.deep_view().len() == n,
                forall|t: int| 0 <= t < i ==> #[trigger] files.deep_view()[t] == fv[t],
                forall|t: int| i <= t < i + k ==> #[trigger] files.deep_view()[t] is None,
                files.deep_view()[active as int] == Some(content@),
            decreases migrations@.len() - k,
        {
            let ghost fd0 = files.deep_view();
            files[active] = None;
            proof {
                assert(files.deep_view() =~= fd0.update(active as int, None::<Seq<char>>));
            }
            let ghost fd1 = files.deep_view();
            let tgt = i + 1 + k;
            proof {
                assert(migrations.deep_view()[k as int] == (versions.deep_view()[tgt as int],
                content@));
                assert(migrations.deep_view()[k as int].1 == migrations@[k as int].1@);
            }
            files[tgt] = Some(migrations[k].1.clone());
            proof {
                assert(files.deep_view() =~= fd1.update(tgt as int, Some(content@)));
            }
            active = tgt;
            k = k + 1;
        }
        Some((Json { versions, files, active }, true))
    }

    /// Read the whole collection from the active version's file. None
    /// means the file does not parse (corrupt state, fatal to the
    /// caller).
    pub fn read(&self) -> (r: Option<Vec<Project>>)
        requires
            self.wf(),
        ensures
            match r {
                Some(ps) => parse_collection(self.active_content()) == Some(ps.deep_view())
                    && collection_wf(ps.deep_view()),
                None => parse_collection(self.active_content()) is None,
            },
    {
        let content = match &self.files[self.active] {
            Some(c) => c,
            None => {
                proof {
                    assert(false);
                }
                return None;
            },
        };
        proof {
            assert(self.files@[self.active as int].deep_view() == self.files.deep_view()[
                self.active as int]);
        }
        let r = parse_collection_exec(content.as_str());
        proof {
            if r is Some {
                lemma_parse_collection_wf(self.active_content());
            }
        }
        r
    }

    /// Overwrite the active version's file with the whole collection.
    pub fn write(&mut self, projects: &Vec<Project>)
        requires
            old(self).wf(),
            collection_wf(projects.deep_view()),
        ensures
            final(self).wf(),
            final(self).versions_view() == old(self).versions_view(),
            final(self).active_index() == old(self).active_index(),
            final(self).files_view() == old(self).files_view().update(
                old(self).active_index(),
                Some(enc_collection(projects.deep_view())),
            ),
            final(self).active_content() == enc_collection(projects.deep_view()),
    {
        let text = encode_collection(projects);
        let a = self.active;
        self.files[a] = Some(text);
        proof {
            assert(self.files.deep_view() =~= old(self).files.deep_view().update(
                old(self).active_index(),
                Some(enc_collection(projects.deep_view())),
            ));
        }
    }
}

/// How the pieces of a resolved store relate: the active slot is in
/// range, holds a file, and `active_content` is that file's text.
pub proof fn lemma_active_content(j: Json)
    requires
        j.wf(),
    ensures
        0 <= j.active_index() < j.files_view().len(),
        j.files_view()[j.active_index()] is Some,
        j.active_content() == j.files_view()[j.active_index()]->0,
        j.files_view().len() == j.versions_view().len(),
{
}

impl Json {
    /// The known version tags, for the shell that names the files.
    pub fn versions_list(&self) -> (r: &Vec<String>)
        ensures
            r.deep_view() == self.versions_view(),
    {
        &self.versions
    }

    /// The file contents per version tag, for the shell that mirrors
    /// them to disk.
    pub fn files_list(&self) -> (r: &Vec<Option<String>>)
        ensures
            r.deep_view() == self.files_view(),
    {
        &self.files
    }

    /// Replace the file snapshot with what the shell read from disk,
    /// so outside edits are picked up. Refused (false) when the
    /// snapshot does not fit the store: wrong length, or the active
    /// version's file gone.
    pub fn refresh_files(&mut self, files: Vec<Option<String>>) -> (r: bool)
        requires
            old(self).wf(),
        ensures
            final(self).wf(),
            final(self).versions_view() == old(self).versions_view(),
            final(self).active_index() == old(self).active_index(),
            r ==> final(self).files_view() == files.deep_view(),
            !r ==> final(self).files_view() == old(self).files_view(),
    {
        if files.len() != self.files.len() {
            return false;
        }
        let present = match &files[self.active] {
            Some(_) => true,
            None => false,
        };
        if !present {
            return false;
        }
        proof {
            assert(files.deep_view()[self.active as int] == files@[self.active as int].deep_view());
        }
        self.files = files;
        true
    }
}

} // verus!
