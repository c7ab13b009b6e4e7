//! Which device nodes are being watched.

use vstd::prelude::*;

verus! {

/// Whether two byte strings are the same.
fn same_bytes(a: &Vec<u8>, b: &Vec<u8>) -> (r: bool)
    ensures
        r == (a@ == b@),
{
    if a.len() != b.len() {
        return false;
    }
    let mut i: usize = 0;
    while i < a.len()
        invariant
            i <= a.len(),
            a.len() == b.len(),
            forall|k: int| 0 <= k < i ==> #[trigger] a@[k] == b@[k],
        decreases a.len() - i,
    {
        if a[i] != b[i] {
            return false;
        }
        i = i + 1;
    }
    assert(a@ =~= b@);
    true
}

/// The paths of the device nodes that have a watcher. A watcher takes its own
/// path out when its device goes away, so that a new device at the same node is
/// found again.
pub struct WatchList {
    paths: Vec<Vec<u8>>,
}

impl View for WatchList {
    type V = Set<Seq<u8>>;

    closed spec fn view(&self) -> Set<Seq<u8>> {
        Set::new(|p: Seq<u8>| exists|i: int| 0 <= i < self.paths@.len() && self.paths@[i]@ == p)
    }
}

impl WatchList {
    /// No path stands in the list twice.
    pub closed spec fn wf(&self) -> bool {
        forall|i: int, j: int|
            0 <= i < j < self.paths@.len() ==> (#[trigger] self.paths@[i])@ != (
            #[trigger] self.paths@[j])@
    }

    /// Nothing is watched.
    pub fn new() -> (w: WatchList)
        ensures
            w.wf(),
            w@ == Set::<Seq<u8>>::empty(),
    {
        let w = WatchList { paths: Vec::new() };
        assert(w@ =~= Set::<Seq<u8>>::empty());
        w
    }

    /// Where `path` stands in the list.
    fn position(&self, path: &Vec<u8>) -> (r: Option<usize>)
        ensures
            match r {
                Some(i) => i < self.paths@.len() && self.paths@[i as int]@ == path@,
                None => forall|i: int|
                    0 <= i < self.paths@.len() ==> (#[trigger] self.paths@[i])@ != path@,
            },
    {
        let mut i: usize = 0;
        while i < self.paths.len()
            invariant
                i <= self.paths@.len(),
                forall|k: int| 0 <= k < i ==> (#[trigger] self.paths@[k])@ != path@,
            decreases self.paths@.len() - i,
        {
            if same_bytes(&self.paths[i], path) {
                return Some(i);
            }
            i = i + 1;
        }
        None
    }

    /// Whether `path` is being watched.
    pub fn contains(&self, path: &Vec<u8>) -> (r: bool)
        ensures
            r == self@.contains(path@),
    {
        match self.position(path) {
            Some(i) => {
                assert(self.paths@[i as int]@ == path@);
                true
            },
            None => false,
        }
    }

    /// Watch `path` from now on.
    pub fn insert(&mut self, path: Vec<u8>)
        requires
            old(self).wf(),
        ensures
            final(self).wf(),
            final(self)@ == old(self)@.insert(path@),
    {
        let ghost before = self.paths@;
        match self.position(&path) {
            Some(i) => {
                assert(self.paths@[i as int]@ == path@);
            },
            None => {
                self.paths.push(path);
            },
        }
        assert forall|p: Seq<u8>| self@.contains(p) == old(self)@.insert(path@).contains(p) by {
            if old(self)@.contains(p) {
                let i = choose|i: int| 0 <= i < before.len() && before[i]@ == p;
                assert(self.paths@[i]@ == p);
            }
            if p == path@ && self.paths@.len() > before.len() {
                assert(self.paths@[before.len() as int]@ == p);
            }
            if self@.contains(p) {
                let i = choose|i: int| 0 <= i < self.paths@.len() && self.paths@[i]@ == p;
                if i < before.len() {
                    assert(before[i]@ == p);
                }
            }
        }
        assert(self@ =~= old(self)@.insert(path@));
    }

    /// Stop watching `path`.
    pub fn remove(&mut self, path: &Vec<u8>)
        requires
            old(self).wf(),
        ensures
            final(self).wf(),
            final(self)@ == old(self)@.remove(path@),
    {
        let ghost before = self.paths@;
        match self.position(path) {
            Some(k) => {
                let _ = self.paths.remove(k);
                assert forall|p: Seq<u8>|
                    self@.contains(p) == old(self)@.remove(path@).contains(p) by {
                    if self@.contains(p) {
                        let i = choose|i: int| 0 <= i < self.paths@.len() && self.paths@[i]@ == p;
                        let j = if i < k {
                            i
                        } else {
                            i + 1
                        };
                        assert(before[j]@ == p);
                        assert(before[k as int]@ == path@);
                    }
                    if old(self)@.contains(p) && p != path@ {
                        let i = choose|i: int| 0 <= i < before.len() && before[i]@ == p;
                        let j = if i < k {
                            i
                        } else {
                            i - 1
                        };
                        assert(self.paths@[j]@ == p);
                    }
                }
            },
            None => {},
        }
        assert(self@ =~= old(self)@.remove(path@));
    }
}

} // verus!
