//! The migration chain: an ordered list of known schema version tags
//! (oldest first) and, for a given active version, the migrations that
//! remain to be applied, each producing the document text of the next
//! version. The chain mechanism is complete; the only transformation
//! defined so far carries the document over unchanged.
use vstd::prelude::*;

verus! {

/// First index holding exactly this version tag, if any.
pub open spec fn version_index(vs: Seq<Seq<char>>, v: Seq<char>) -> Option<int>
    decreases vs.len(),
{
    if vs.len() == 0 {
        None
    } else if vs[0] == v {
        Some(0int)
    } else {
        match version_index(vs.drop_first(), v) {
            Some(i) => Some(i + 1),
            None => None,
        }
    }
}

/// A position that matches, with no match before it, is the first match.
pub proof fn lemma_version_index_found(vs: Seq<Seq<char>>, v: Seq<char>, i: int)
    requires
        0 <= i < vs.len(),
        vs[i] == v,
        forall|j: int| 0 <= j < i ==> vs[j] != v,
    ensures
        version_index(vs, v) matches Some(k) && k <= i,
    decreases vs.len(),
{
    if vs[0] != v {
        lemma_version_index_found(vs.drop_first(), v, i - 1);
    }
}

/// No matching position means no index.
pub proof fn lemma_version_index_none(vs: Seq<Seq<char>>, v: Seq<char>)
    requires
        forall|j: int| 0 <= j < vs.len() ==> vs[j] != v,
    ensures
        version_index(vs, v) is None,
    decreases vs.len(),
{
    if vs.len() > 0 {
        lemma_version_index_none(vs.drop_first(), v);
    }
}

/// The index found is a match, and the first one.
pub proof fn lemma_version_index_some(vs: Seq<Seq<char>>, v: Seq<char>)
    requires
        version_index(vs, v) is Some,
    ensures
        version_index(vs, v) matches Some(i) && 0 <= i < vs.len() && vs[i] == v && (forall|j: int|
            0 <= j < i ==> vs[j] != v),
    decreases vs.len(),
{
    if vs.len() > 0 && vs[0] != v {
        lemma_version_index_some(vs.drop_first(), v);
        let i1 = version_index(vs.drop_first(), v)->0;
        assert(vs.drop_first()[i1] == vs[i1 + 1]);
        assert forall|j: int| 0 <= j < i1 + 1 implies vs[j] != v by {
            if j > 0 {
                assert(vs.drop_first()[j - 1] == vs[j]);
            }
        }
    }
}

/// A matching position somewhere means an index is found.
pub proof fn lemma_version_index_exists(vs: Seq<Seq<char>>, v: Seq<char>)
    requires
        exists|k: int| 0 <= k < vs.len() && vs[k] == v,
    ensures
        version_index(vs, v) is Some,
    decreases vs.len(),
{
    if vs[0] != v {
        let k = choose|k: int| 0 <= k < vs.len() && vs[k] == v;
        assert(vs.drop_first()[k - 1] == vs[k]);
        lemma_version_index_exists(vs.drop_first(), v);
    }
}

pub struct Migration;

impl Migration {
    /// The known schema versions, oldest first. A single version is
    /// populated so far.
    pub fn known_versions() -> (r: Vec<String>)
        ensures
            r.deep_view() == seq!["6ad96"@],
    {
        let mut v: Vec<String> = Vec::new();
        v.push(String::from_str("6ad96"));
        proof {
            assert(v.deep_view() =~= seq!["6ad96"@]);
        }
        v
    }

    /// The migrations still to apply when `version` is the active tag:
    /// one entry per later version in the ordered list, pairing the
    /// target tag with the document text it receives. An unknown tag
    /// yields an empty list. The transformation of each defined step
    /// keeps the document text unchanged.
    pub fn get_migrations(versions: &Vec<String>, version: &String, doc: &String) -> (r: Vec<
        (String, String),
    >)
        ensures
            (match version_index(versions.deep_view(), version@) {
                Some(i) => {
                    &&& r.deep_view().len() == versions.deep_view().len() - 1 - i
                    &&& forall|j: int|
                        0 <= j < r.deep_view().len() ==> #[trigger] r.deep_view()[j] == (
                        versions.deep_view()[i + 1 + j], doc@)
                },
                None => r.deep_view().len() == 0,
            }),
    {
        let mut i: usize = 0;
        while i < versions.len() && !(versions[i] == *version)
            invariant
                i <= versions@.len(),
                forall|j: int| 0 <= j < i ==> versions.deep_view()[j] != version@,
            decreases versions@.len() - i,
        {
            proof {
                assert(versions.deep_view()[i as int] == versions@[i as int]@);
            }
            i = i + 1;
        }
        let mut r: Vec<(String, String)> = Vec::new();
        if i >= versions.len() {
            proof {
                lemma_version_index_none(versions.deep_view(), version@);
                assert(r.deep_view() =~= Seq::<(Seq<char>, Seq<char>)>::empty());
            }
        } else {
            let s = i;
            proof {
                assert(versions.deep_view()[s as int] == versions@[s as int]@);
                lemma_version_index_found(versions.deep_view(), version@, s as int);
                lemma_version_index_some(versions.deep_view(), version@);
                assert(version_index(versions.deep_view(), version@) == Some(s as int));
            }
            let mut k: usize = s + 1;
            while k < versions.len()
                invariant
                    s < k <= versions@.len(),
                    version_index(versions.deep_view(), version@) == Some(s as int),
                    r.deep_view().len() == k - s - 1,
                    forall|j: int|
                        0 <= j < r.deep_view().len() ==> #[trigger] r.deep_view()[j] == (
                        versions.deep_view()[s + 1 + j], doc@),
                decreases versions@.len() - k,
            {
                let ghost old_r = r.deep_view();
                r.push((versions[k].clone(), doc.clone()));
                proof {
                    assert(versions.deep_view()[k as int] == versions@[k as int]@);
                    assert(r.deep_view() =~= old_r.push((versions.deep_view()[k as int], doc@)));
                }
                k = k + 1;
            }
        }
        r
    }
}

} // verus!
