//! A model of the cache root directory: the files under it, each a name
//! with its text. The cache owns its root exclusively, so this flat listing
//! is the whole observable state. Viewed abstractly it is a map from file
//! name to file text; names are unique.

use vstd::prelude::*;

use vstd::string::StringExecFns;

use crate::strutil::str_eq;

verus! {

/// Names in an association list are pairwise distinct.
pub open spec fn uniq_names(files: Seq<(String, String)>) -> bool {
    forall|i: int, j: int| 0 <= i < j < files.len() ==> files[i].0@ != files[j].0@
}

/// Whether some entry of `files` bears the name `k`.
pub open spec fn has_name_seq(files: Seq<(String, String)>, k: Seq<char>) -> bool {
    exists|i: int| 0 <= i < files.len() && files[i].0@ == k
}

/// The index of the entry named `k`.
pub open spec fn name_index_seq(files: Seq<(String, String)>, k: Seq<char>) -> int {
    choose|i: int| 0 <= i < files.len() && files[i].0@ == k
}

/// The map an association list denotes.
pub open spec fn assoc_map(files: Seq<(String, String)>) -> Map<Seq<char>, Seq<char>> {
    Map::new(
        |k: Seq<char>| has_name_seq(files, k),
        |k: Seq<char>| files[name_index_seq(files, k)].1@,
    )
}

pub proof fn lemma_assoc_at(files: Seq<(String, String)>, i: int)
    requires
        uniq_names(files),
        0 <= i < files.len(),
    ensures
        assoc_map(files).contains_key(files[i].0@),
        name_index_seq(files, files[i].0@) == i,
        assoc_map(files)[files[i].0@] == files[i].1@,
{
    assert(has_name_seq(files, files[i].0@));
}

pub proof fn lemma_assoc_push_fresh(files: Seq<(String, String)>, p: (String, String))
    requires
        uniq_names(files),
        !has_name_seq(files, p.0@),
    ensures
        uniq_names(files.push(p)),
        assoc_map(files.push(p)) == assoc_map(files).insert(p.0@, p.1@),
{
    let post = files.push(p);
    assert forall|i: int, j: int| 0 <= i < j < post.len() implies post[i].0@ != post[j].0@ by {
        if j < files.len() {
        } else {
            assert(post[j] == p);
            assert(post[i] == files[i]);
        }
    }
    assert forall|k: Seq<char>|
        assoc_map(post).contains_key(k) == assoc_map(files).insert(p.0@, p.1@).contains_key(
            k,
        ) by {
        if k == p.0@ {
            assert(post[files.len() as int].0@ == k);
        } else {
            if has_name_seq(post, k) {
                let i = choose|i: int| 0 <= i < post.len() && post[i].0@ == k;
                assert(i < files.len());
                assert(files[i].0@ == k);
            }
            if has_name_seq(files, k) {
                let i = choose|i: int| 0 <= i < files.len() && files[i].0@ == k;
                assert(post[i].0@ == k);
            }
        }
    }
    assert forall|k: Seq<char>| assoc_map(post).contains_key(k) implies assoc_map(post)[k]
        == assoc_map(files).insert(p.0@, p.1@)[k] by {
        let i = name_index_seq(post, k);
        assert(0 <= i < post.len() && post[i].0@ == k);
        if k == p.0@ {
            if i < files.len() {
                assert(files[i].0@ == k);
                assert(false);
            }
            assert(post[i] == p);
        } else {
            assert(i < files.len());
            assert(files[i].0@ == k);
            lemma_assoc_at(files, i);
        }
    }
    assert(assoc_map(post) =~= assoc_map(files).insert(p.0@, p.1@));
}

pub proof fn lemma_assoc_remove(files: Seq<(String, String)>, i: int)
    requires
        uniq_names(files),
        0 <= i < files.len(),
    ensures
        uniq_names(files.remove(i)),
        assoc_map(files.remove(i)) == assoc_map(files).remove(files[i].0@),
{
    let post = files.remove(i);
    assert forall|a: int, b: int| 0 <= a < b < post.len() implies post[a].0@ != post[b].0@ by {
        let a0 = if a < i { a } else { a + 1 };
        let b0 = if b < i { b } else { b + 1 };
        assert(post[a] == files[a0]);
        assert(post[b] == files[b0]);
    }
    assert forall|k: Seq<char>|
        assoc_map(post).contains_key(k) == assoc_map(files).remove(files[i].0@).contains_key(
            k,
        ) by {
        if has_name_seq(post, k) {
            let a = choose|a: int| 0 <= a < post.len() && post[a].0@ == k;
            let a0 = if a < i { a } else { a + 1 };
            assert(post[a] == files[a0]);
            assert(files[a0].0@ == k);
            assert(a0 != i);
            assert(k != files[i].0@);
        }
        if has_name_seq(files, k) && k != files[i].0@ {
            let a0 = choose|a0: int| 0 <= a0 < files.len() && files[a0].0@ == k;
            assert(a0 != i);
            let a = if a0 < i { a0 } else { a0 - 1 };
            assert(post[a] == files[a0]);
            assert(has_name_seq(post, k));
        }
    }
    assert forall|k: Seq<char>| assoc_map(post).contains_key(k) implies assoc_map(post)[k]
        == assoc_map(files).remove(files[i].0@)[k] by {
        let a = name_index_seq(post, k);
        assert(0 <= a < post.len() && post[a].0@ == k);
        let a0 = if a < i { a } else { a + 1 };
        assert(post[a] == files[a0]);
        lemma_assoc_at(files, a0);
    }
    assert(assoc_map(post) =~= assoc_map(files).remove(files[i].0@));
}

/// What keeping the entries that satisfy `pk` does to the denoted map:
/// precisely the keys whose name-and-text pair satisfies the view-level
/// predicate `pv` survive, with their texts unchanged; and the number of
/// entries dropped equals the number of keys for which `pv` fails.
pub proof fn lemma_retain_model(
    files: Seq<(String, String)>,
    pk: spec_fn((String, String)) -> bool,
    pv: spec_fn(Seq<char>, Seq<char>) -> bool,
)
    requires
        uniq_names(files),
        forall|p: (String, String)| #[trigger] pk(p) == pv(p.0@, p.1@),
    ensures
        uniq_names(files.filter(pk)),
        assoc_map(files.filter(pk)) == Map::<Seq<char>, Seq<char>>::new(
            |k: Seq<char>| assoc_map(files).contains_key(k) && pv(k, assoc_map(files)[k]),
            |k: Seq<char>| assoc_map(files)[k],
        ),
        assoc_map(files).dom().finite(),
        assoc_map(files).dom().len() == files.len(),
        files.len() - files.filter(pk).len() == assoc_map(files).dom().filter(
            |k: Seq<char>| !pv(k, assoc_map(files)[k]),
        ).len(),
    decreases files.len(),
{
    reveal(Seq::filter);
    let m = assoc_map(files);
    let target = Map::<Seq<char>, Seq<char>>::new(
        |k: Seq<char>| m.contains_key(k) && pv(k, m[k]),
        |k: Seq<char>| m[k],
    );
    if files.len() == 0 {
        assert(m.dom() =~= Set::<Seq<char>>::empty());
        assert(files.filter(pk) == files);
        assert(assoc_map(files.filter(pk)) =~= target);
        assert(m.dom().filter(|k: Seq<char>| !pv(k, m[k])) =~= Set::<Seq<char>>::empty());
    } else {
        let fs = files.drop_last();
        let p = files.last();
        assert(files =~= fs.push(p));
        assert(uniq_names(fs));
        assert forall|i: int| 0 <= i < fs.len() implies fs[i].0@ != p.0@ by {
            assert(files[i].0@ != files[files.len() - 1].0@);
        }
        assert(!has_name_seq(fs, p.0@));
        lemma_retain_model(fs, pk, pv);
        lemma_assoc_push_fresh(fs, p);
        let msub = assoc_map(fs);
        assert(m == assoc_map(fs.push(p)));
        assert(m == msub.insert(p.0@, p.1@));
        let subtarget = Map::<Seq<char>, Seq<char>>::new(
            |k: Seq<char>| msub.contains_key(k) && pv(k, msub[k]),
            |k: Seq<char>| msub[k],
        );
        assert(m.dom() =~= msub.dom().insert(p.0@));
        assert(!msub.dom().contains(p.0@));
        vstd::set::axiom_set_insert_len(msub.dom(), p.0@);
        assert(m.dom().len() == files.len());
        // The tail element either survives into the filtered list or counts
        // as one more removal; either way the maps and counts line up.
        let kept = files.filter(pk);
        assert(files.drop_last() == fs);
        assert(kept == if pk(p) {
            fs.filter(pk).push(p)
        } else {
            fs.filter(pk)
        });
        let rmsub = msub.dom().filter(|k: Seq<char>| !pv(k, msub[k]));
        let rm = m.dom().filter(|k: Seq<char>| !pv(k, m[k]));
        msub.dom().lemma_len_filter(|k: Seq<char>| !pv(k, msub[k]));
        assert forall|k: Seq<char>| k != p.0@ implies (m.contains_key(k) == msub.contains_key(k)
            && (msub.contains_key(k) ==> m[k] == msub[k])) by {}
        if pk(p) {
            assert(pv(p.0@, p.1@));
            assert(!has_name_seq(fs.filter(pk), p.0@)) by {
                if has_name_seq(fs.filter(pk), p.0@) {
                    let i = choose|i: int|
                        0 <= i < fs.filter(pk).len() && fs.filter(pk)[i].0@ == p.0@;
                    lemma_assoc_at(fs.filter(pk), i);
                    assert(subtarget.contains_key(p.0@));
                }
            }
            lemma_assoc_push_fresh(fs.filter(pk), p);
            assert(assoc_map(kept) == assoc_map(fs.filter(pk)).insert(p.0@, p.1@));
            assert(assoc_map(kept) =~= target);
            assert(rm =~= rmsub);
        } else {
            assert(!pv(p.0@, p.1@));
            assert(assoc_map(kept) =~= target);
            assert(rm =~= rmsub.insert(p.0@));
            assert(!rmsub.contains(p.0@));
            vstd::set::axiom_set_insert_len(rmsub, p.0@);
        }
    }
}

/// The directory model: each file's name and text, in listing order.
pub struct Store {
    pub files: Vec<(String, String)>,
}

impl Store {
    /// Names are unique: one file per name.
    pub open spec fn wf(self) -> bool {
        uniq_names(self.files@)
    }

    /// The directory as a map from file name to file text.
    pub open spec fn as_map(self) -> Map<Seq<char>, Seq<char>> {
        assoc_map(self.files@)
    }

    /// An empty directory.
    pub fn new() -> (s: Store)
        ensures
            s.wf(),
            s.as_map() == Map::<Seq<char>, Seq<char>>::empty(),
            s.files@.len() == 0,
    {
        let s = Store { files: Vec::new() };
        proof {
            assert(s.as_map() =~= Map::<Seq<char>, Seq<char>>::empty());
        }
        s
    }

    /// How many files the directory holds.
    pub fn file_count(&self) -> (n: usize)
        ensures
            n == self.files@.len(),
    {
        self.files.len()
    }

    fn find_index(&self, name: &str) -> (r: Option<usize>)
        ensures
            match r {
                Some(i) => 0 <= i < self.files@.len() && self.files@[i as int].0@ == name@,
                None => !has_name_seq(self.files@, name@),
            },
    {
        let n = self.files.len();
        let mut i: usize = 0;
        while i < n
            invariant
                i <= n,
                n == self.files@.len(),
                forall|j: int| 0 <= j < i ==> self.files@[j].0@ != name@,
            decreases n - i,
        {
            if str_eq(self.files[i].0.as_str(), name) {
                return Some(i);
            }
            i = i + 1;
        }
        None
    }

    /// The text of the file named `name`, or `None` where there is none.
    pub fn read(&self, name: &str) -> (r: Option<String>)
        requires
            self.wf(),
        ensures
            match r {
                Some(c) => self.as_map().contains_key(name@) && c@ == self.as_map()[name@],
                None => !self.as_map().contains_key(name@),
            },
    {
        match self.find_index(name) {
            Some(i) => {
                proof {
                    lemma_assoc_at(self.files@, i as int);
                }
                Some(self.files[i].1.clone())
            },
            None => None,
        }
    }

    /// Writes `content` under `name`, replacing any prior file of that name.
    pub fn write(&mut self, name: &str, content: String)
        requires
            old(self).wf(),
        ensures
            final(self).wf(),
            final(self).as_map() == old(self).as_map().insert(name@, content@),
    {
        let ghost pre = self.files@;
        match self.find_index(name) {
            Some(i) => {
                proof {
                    lemma_assoc_remove(pre, i as int);
                }
                self.files.remove(i);
                let ghost mid = self.files@;
                let owned = String::from_str(name);
                proof {
                    assert forall|j: int| 0 <= j < mid.len() implies mid[j].0@ != name@ by {
                        let j0 = if j < i as int {
                            j
                        } else {
                            j + 1
                        };
                        assert(mid[j] == pre[j0]);
                    }
                    lemma_assoc_push_fresh(mid, (owned, content));
                }
                self.files.push((owned, content));
                proof {
                    assert(assoc_map(self.files@) =~= assoc_map(pre).insert(name@, content@));
                }
            },
            None => {
                let owned = String::from_str(name);
                proof {
                    lemma_assoc_push_fresh(pre, (owned, content));
                }
                self.files.push((owned, content));
            },
        }
    }

    /// Removes the file named `name` if present; reports whether one was.
    pub fn remove(&mut self, name: &str) -> (r: bool)
        requires
            old(self).wf(),
        ensures
            final(self).wf(),
            final(self).as_map() == old(self).as_map().remove(name@),
            r == old(self).as_map().contains_key(name@),
    {
        let ghost pre = self.files@;
        match self.find_index(name) {
            Some(i) => {
                proof {
                    lemma_assoc_at(pre, i as int);
                    lemma_assoc_remove(pre, i as int);
                }
                self.files.remove(i);
                true
            },
            None => {
                proof {
                    assert(assoc_map(pre).remove(name@) =~= assoc_map(pre));
                }
                false
            },
        }
    }
}

} // verus!
