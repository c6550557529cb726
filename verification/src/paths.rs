//! Absolute filesystem locations, modelled as the sequence of component
//! names below the root. The empty sequence stands for the root directory.

use vstd::prelude::*;

verus! {

/// An absolute path: the component names from the root down, in order.
#[derive(Debug)]
pub struct FsPath {
    pub components: Vec<String>,
}

impl View for FsPath {
    type V = Seq<Seq<char>>;

    open spec fn view(&self) -> Seq<Seq<char>> {
        self.components.deep_view()
    }
}

impl FsPath {
    /// The root directory.
    pub fn root() -> (p: FsPath)
        ensures
            p@ =~= Seq::<Seq<char>>::empty(),
    {
        FsPath { components: Vec::new() }
    }

    pub fn from_components(components: Vec<String>) -> (p: FsPath)
        ensures
            p@ == components.deep_view(),
    {
        FsPath { components }
    }

    pub fn len(&self) -> (n: usize)
        ensures
            n == self@.len(),
    {
        self.components.len()
    }

    pub fn is_root(&self) -> (r: bool)
        ensures
            r == (self@.len() == 0),
    {
        self.components.len() == 0
    }

    /// The path one component deeper, `self` with `name` appended.
    pub fn join(&self, name: &String) -> (p: FsPath)
        ensures
            p@ =~= self@.push(name@),
    {
        let mut components = clone_string_vec(&self.components);
        components.push(name.clone());
        FsPath { components }
    }

    /// The containing directory; `None` at the root.
    pub fn parent(&self) -> (p: Option<FsPath>)
        ensures
            self@.len() == 0 ==> p is None,
            self@.len() > 0 ==> p is Some && p->Some_0@ =~= self@.drop_last(),
    {
        if self.components.len() == 0 {
            None
        } else {
            let mut components = clone_string_vec(&self.components);
            let _last = components.pop();
            Some(FsPath { components })
        }
    }

    /// The last component; `None` at the root.
    pub fn file_name(&self) -> (n: Option<String>)
        ensures
            self@.len() == 0 ==> n is None,
            self@.len() > 0 ==> n is Some && n->Some_0@ == self@.last(),
    {
        if self.components.len() == 0 {
            None
        } else {
            Some(self.components[self.components.len() - 1].clone())
        }
    }

    pub fn clone_path(&self) -> (p: FsPath)
        ensures
            p@ =~= self@,
    {
        FsPath { components: clone_string_vec(&self.components) }
    }

    pub fn path_eq(&self, other: &FsPath) -> (r: bool)
        ensures
            r == (self@ =~= other@),
    {
        if self.components.len() != other.components.len() {
            proof {
                assert(self@.len() != other@.len());
            }
            return false;
        }
        let n = self.components.len();
        let mut i: usize = 0;
        while i < n
            invariant
                n == self@.len(),
                n == other@.len(),
                i <= n,
                forall|k: int| 0 <= k < i ==> self@[k] == other@[k],
            decreases n - i,
        {
            if !(self.components[i] == other.components[i]) {
                proof {
                    if self@ =~= other@ {
                        assert(self@[i as int] == other@[i as int]);
                    }
                }
                return false;
            }
            i += 1;
        }
        proof {
            assert(self@ =~= other@);
        }
        true
    }

    /// Whether `prefix` is an initial segment of `self` (every directory is a
    /// prefix of itself and of all of its descendants).
    pub fn starts_with(&self, prefix: &FsPath) -> (r: bool)
        ensures
            r == prefix@.is_prefix_of(self@),
    {
        if prefix.components.len() > self.components.len() {
            return false;
        }
        let n = prefix.components.len();
        let mut i: usize = 0;
        while i < n
            invariant
                n == prefix@.len(),
                n <= self@.len(),
                i <= n,
                forall|k: int| 0 <= k < i ==> prefix@[k] == self@[k],
            decreases n - i,
        {
            if !(prefix.components[i] == self.components[i]) {
                proof {
                    if prefix@.is_prefix_of(self@) {
                        assert(prefix@ =~= self@.subrange(0, n as int));
                        assert(prefix@[i as int] == self@[i as int]);
                    }
                }
                return false;
            }
            i += 1;
        }
        proof {
            assert(prefix@ =~= self@.subrange(0, prefix@.len() as int));
        }
        true
    }

    /// `self` re-rooted from under `src` to under `dest`: `dest` followed by
    /// the components of `self` past the first `src_len`.
    pub fn reroot(&self, src_len: usize, dest: &FsPath) -> (p: FsPath)
        requires
            src_len <= self@.len(),
        ensures
            p@ =~= dest@ + self@.skip(src_len as int),
    {
        let mut components = clone_string_vec(&dest.components);
        let mut i: usize = src_len;
        while i < self.components.len()
            invariant
                src_len <= i <= self@.len(),
                self@.len() == self.components.len(),
                components.deep_view() =~= dest@ + self@.subrange(src_len as int, i as int),
            decreases self@.len() - i,
        {
            let ghost pre = components.deep_view();
            components.push(self.components[i].clone());
            proof {
                assert(components.deep_view() =~= pre.push(self@[i as int]));
                assert(pre.push(self@[i as int]) =~= dest@ + self@.subrange(
                    src_len as int,
                    i + 1,
                ));
            }
            i += 1;
        }
        proof {
            assert(self@.subrange(src_len as int, self@.len() as int) =~= self@.skip(
                src_len as int,
            ));
        }
        FsPath { components }
    }
}

/// A value-preserving copy of a vector of strings.
pub fn clone_string_vec(v: &Vec<String>) -> (r: Vec<String>)
    ensures
        r.deep_view() =~= v.deep_view(),
        r.len() == v.len(),
{
    let mut r: Vec<String> = Vec::new();
    let mut i: usize = 0;
    while i < v.len()
        invariant
            i <= v.len(),
            r.len() == i,
            forall|k: int| 0 <= k < i ==> r.deep_view()[k] == v.deep_view()[k],
        decreases v.len() - i,
    {
        r.push(v[i].clone());
        i += 1;
    }
    r
}

} // verus!
