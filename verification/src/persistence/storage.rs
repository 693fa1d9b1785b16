//! An image of the files of the working directory: names and contents.
use vstd::prelude::*;
use vstd::string::*;
use crate::persistence::bytes::push_bytes;
use crate::text::str_equal;

verus! {

/// The files that the table store works on, by name. The table store reads and changes
/// this image only; loading it from a directory and writing it back is left to the caller.
pub struct Storage {
    names: Vec<String>,
    contents: Vec<Vec<u8>>,
}

impl View for Storage {
    type V = Map<Seq<char>, Seq<u8>>;

    closed spec fn view(&self) -> Map<Seq<char>, Seq<u8>> {
        Map::new(
            |name: Seq<char>| self.holds(name),
            |name: Seq<char>| self.contents@[self.position(name)]@,
        )
    }
}

impl Storage {
    /// Whether the image is well formed: no name stands for two files.
    pub closed spec fn wf(&self) -> bool {
        &&& self.names@.len() == self.contents@.len()
        &&& forall|i: int, j: int|
            0 <= i < j < self.names@.len() ==> self.names@[i]@ != self.names@[j]@
    }

    spec fn holds(self, name: Seq<char>) -> bool {
        exists|i: int| 0 <= i < self.names@.len() && #[trigger] self.names@[i]@ == name
    }

    spec fn position(self, name: Seq<char>) -> int {
        choose|i: int| 0 <= i < self.names@.len() && #[trigger] self.names@[i]@ == name
    }

    /// An image without files.
    pub fn new() -> (r: Self)
        ensures
            r.wf(),
            r@ == Map::<Seq<char>, Seq<u8>>::empty(),
    {
        let r = Storage { names: Vec::new(), contents: Vec::new() };
        assert(r@ =~= Map::<Seq<char>, Seq<u8>>::empty());
        r
    }

    fn find(&self, name: &str) -> (r: Option<usize>)
        requires
            self.wf(),
        ensures
            match r {
                Some(i) => i < self.names@.len() && self.names@[i as int]@ == name@ && self.holds(
                    name@,
                ) && self.position(name@) == i,
                None => !self.holds(name@),
            },
    {
        let n = self.names.len();
        let mut k: usize = 0;
        while k < n
            invariant
                self.wf(),
                n == self.names@.len(),
                k <= n,
                forall|i: int| 0 <= i < k ==> #[trigger] self.names@[i]@ != name@,
            decreases n - k,
        {
            if str_equal(self.names[k].as_str(), name) {
                assert(self.names@[k as int]@ == name@);
                assert(self.holds(name@));
                return Some(k);
            }
            k += 1;
        }
        None
    }

    /// Whether a file of that name exists.
    pub fn contains(&self, name: &str) -> (r: bool)
        requires
            self.wf(),
        ensures
            r == self@.contains_key(name@),
    {
        self.find(name).is_some()
    }

    /// The contents of a file, if it exists.
    pub fn read(&self, name: &str) -> (r: Option<&Vec<u8>>)
        requires
            self.wf(),
        ensures
            match r {
                Some(bytes) => self@.contains_key(name@) && bytes@ == self@[name@],
                None => !self@.contains_key(name@),
            },
    {
        match self.find(name) {
            Some(i) => Some(&self.contents[i]),
            None => None,
        }
    }

    /// Creates the file or replaces its contents.
    pub fn write(&mut self, name: &str, bytes: Vec<u8>)
        requires
            old(self).wf(),
        ensures
            final(self).wf(),
            final(self)@ == old(self)@.insert(name@, bytes@),
    {
        match self.find(name) {
            Some(i) => {
                self.contents.set(i, bytes);
                proof {
                    assert(self.names@ == old(self).names@);
                    assert forall|key: Seq<char>| self.holds(key) == old(self).holds(key) by {
                        if self.holds(key) {
                            let j = self.position(key);
                            assert(old(self).names@[j]@ == key);
                        }
                        if old(self).holds(key) {
                            let j = old(self).position(key);
                            assert(self.names@[j]@ == key);
                        }
                    }
                    assert forall|key: Seq<char>| self.holds(key) implies self.position(key)
                        == old(self).position(key) by {
                        let j = self.position(key);
                        assert(old(self).names@[j]@ == key);
                    }
                    assert(self@ =~= old(self)@.insert(name@, bytes@));
                }
            },
            None => {
                self.names.push(name.to_owned());
                self.contents.push(bytes);
                proof {
                    let last = old(self).names@.len() as int;
                    assert(self.names@[last]@ == name@);
                    assert forall|key: Seq<char>| self.holds(key) == (old(self).holds(key) || key
                        == name@) by {
                        if old(self).holds(key) {
                            let i = old(self).position(key);
                            assert(self.names@[i]@ == key);
                        }
                        if self.holds(key) && key != name@ {
                            let i = self.position(key);
                            assert(old(self).names@[i]@ == key);
                        }
                    }
                    assert forall|key: Seq<char>| old(self).holds(key) implies self.position(key)
                        == old(self).position(key) by {
                        let i = old(self).position(key);
                        assert(self.names@[i]@ == key);
                    }
                    assert(self.position(name@) == last);
                    assert(self@ =~= old(self)@.insert(name@, bytes@));
                }
            },
        }
    }

    /// Adds bytes at the end of a file, and says whether the file exists.
    pub fn append(&mut self, name: &str, bytes: &[u8]) -> (r: bool)
        requires
            old(self).wf(),
        ensures
            final(self).wf(),
            r == old(self)@.contains_key(name@),
            r ==> final(self)@ == old(self)@.insert(name@, old(self)@[name@] + bytes@),
            !r ==> final(self)@ == old(self)@,
    {
        let mut contents = match self.read(name) {
            Some(contents) => contents.clone(),
            None => {
                return false;
            },
        };
        push_bytes(&mut contents, bytes);
        self.write(name, contents);
        true
    }

    /// Removes a file, and says whether it existed.
    pub fn remove(&mut self, name: &str) -> (r: bool)
        requires
            old(self).wf(),
        ensures
            final(self).wf(),
            r == old(self)@.contains_key(name@),
            final(self)@ == old(self)@.remove(name@),
    {
        match self.find(name) {
            Some(i) => {
                self.names.remove(i);
                self.contents.remove(i);
                proof {
                    let at = i as int;
                    assert forall|key: Seq<char>| self.holds(key) == (old(self).holds(key) && key
                        != name@) by {
                        if old(self).holds(key) && key != name@ {
                            let j = old(self).position(key);
                            if j < at {
                                assert(self.names@[j]@ == key);
                            } else {
                                assert(self.names@[j - 1]@ == key);
                            }
                        }
                        if self.holds(key) {
                            let j = self.position(key);
                            if j < at {
                                assert(old(self).names@[j]@ == key);
                            } else {
                                assert(old(self).names@[j + 1]@ == key);
                            }
                        }
                    }
                    assert forall|key: Seq<char>| self.holds(key) implies self.contents@[self.position(
                        key,
                    )]@ == old(self).contents@[old(self).position(key)]@ by {
                        let j = self.position(key);
                        if j < at {
                            assert(old(self).names@[j]@ == key);
                        } else {
                            assert(old(self).names@[j + 1]@ == key);
                        }
                    }
                    assert(self@ =~= old(self)@.remove(name@));
                }
                true
            },
            None => {
                assert(self@ =~= old(self)@.remove(name@));
                false
            },
        }
    }

    /// The names of all files.
    pub fn file_names(&self) -> (r: Vec<String>)
        requires
            self.wf(),
        ensures
            forall|i: int, j: int| 0 <= i < j < r@.len() ==> r@[i]@ != r@[j]@,
            forall|name: Seq<char>|
                self@.contains_key(name) <==> exists|i: int|
                    0 <= i < r@.len() && #[trigger] r@[i]@ == name,
    {
        let n = self.names.len();
        let mut out: Vec<String> = Vec::new();
        let mut k: usize = 0;
        while k < n
            invariant
                n == self.names@.len(),
                k <= n,
                out@.len() == k,
                forall|i: int| 0 <= i < k ==> #[trigger] out@[i]@ == self.names@[i]@,
            decreases n - k,
        {
            out.push(self.names[k].clone());
            k += 1;
        }
        proof {
            assert forall|name: Seq<char>| self@.contains_key(name) <==> exists|i: int|
                0 <= i < out@.len() && #[trigger] out@[i]@ == name by {
                if self@.contains_key(name) {
                    let i = self.position(name);
                    assert(out@[i]@ == name);
                }
                if exists|i: int| 0 <= i < out@.len() && #[trigger] out@[i]@ == name {
                    let i = choose|i: int| 0 <= i < out@.len() && #[trigger] out@[i]@ == name;
                    assert(self.names@[i]@ == name);
                }
            }
        }
        out
    }
}

} // verus!
