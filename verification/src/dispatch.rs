//! The driver dispatch table.
//!
//! A process names the driver it wants by a small number. The table maps
//! those numbers to driver references. It is built once, from a list of
//! pairs, and never changes afterwards.

use vstd::prelude::*;

verus! {

/// No driver number occurs twice in `entries`.
pub open spec fn numbers_unique<D>(entries: Seq<(usize, D)>) -> bool {
    forall|i: int, j: int|
        0 <= i < j < entries.len() ==> (#[trigger] entries[i]).0 != (#[trigger] entries[j]).0
}

/// Whether `entries` has an entry for `driver_num`.
pub open spec fn has_driver<D>(entries: Seq<(usize, D)>, driver_num: usize) -> bool {
    exists|i: int| 0 <= i < entries.len() && (#[trigger] entries[i]).0 == driver_num
}

/// The driver registered in `entries` under `driver_num`, or `None` when
/// there is none.
pub open spec fn driver_for<D>(entries: Seq<(usize, D)>, driver_num: usize) -> Option<D> {
    if has_driver(entries, driver_num) {
        let i = choose|i: int| 0 <= i < entries.len() && (#[trigger] entries[i]).0 == driver_num;
        Some(entries[i].1)
    } else {
        None
    }
}

/// In a table without repeated numbers, the entry at index `i` is the one
/// that its number leads to.
pub proof fn lemma_driver_for<D>(entries: Seq<(usize, D)>, i: int)
    requires
        numbers_unique(entries),
        0 <= i < entries.len(),
    ensures
        driver_for(entries, entries[i].0) == Some(entries[i].1),
{
    let driver_num = entries[i].0;
    let found = choose|k: int| 0 <= k < entries.len() && (#[trigger] entries[k]).0 == driver_num;
    if found < i {
        assert(entries[found].0 != entries[i].0);
    } else if i < found {
        assert(entries[i].0 != entries[found].0);
    }
}

/// The driver dispatch table over driver references of type `D`.
pub struct DriverDispatchTable<D> {
    entries: Vec<(usize, D)>,
}

impl<D> View for DriverDispatchTable<D> {
    type V = Seq<(usize, D)>;

    closed spec fn view(&self) -> Seq<(usize, D)> {
        self.entries@
    }
}

impl<D> DriverDispatchTable<D> {
    /// No driver number occurs twice.
    pub open spec fn wf(&self) -> bool {
        numbers_unique(self@)
    }

    /// The table with the given pairs of driver number and driver reference,
    /// or `None` when a number occurs twice.
    pub fn new(entries: Vec<(usize, D)>) -> (table: Option<DriverDispatchTable<D>>)
        ensures
            table.is_some() <==> numbers_unique(entries@),
            table matches Some(t) ==> t@ == entries@ && t.wf(),
    {
        let mut j: usize = 0;
        while j < entries.len()
            invariant
                j <= entries.len(),
                forall|a: int, b: int|
                    0 <= a < b < j ==> (#[trigger] entries@[a]).0 != (#[trigger] entries@[b]).0,
            decreases entries.len() - j,
        {
            let mut i: usize = 0;
            while i < j
                invariant
                    i <= j < entries.len(),
                    forall|a: int| 0 <= a < i ==> (#[trigger] entries@[a]).0 != entries@[j as int].0,
                decreases j - i,
            {
                if entries[i].0 == entries[j].0 {
                    return None;
                }
                i = i + 1;
            }
            j = j + 1;
        }
        Some(DriverDispatchTable { entries })
    }

    /// Number of registered drivers.
    pub fn len(&self) -> (len: usize)
        ensures
            len == self@.len(),
    {
        self.entries.len()
    }

    /// The driver registered under `driver_num`, or `None` when there is
    /// none.
    pub fn lookup(&self, driver_num: usize) -> (driver: Option<&D>)
        requires
            self.wf(),
        ensures
            driver == match driver_for(self@, driver_num) {
                Some(d) => Some(&d),
                None => None,
            },
    {
        let mut i: usize = 0;
        while i < self.entries.len()
            invariant
                i <= self.entries.len(),
                numbers_unique(self.entries@),
                forall|a: int| 0 <= a < i ==> (#[trigger] self.entries@[a]).0 != driver_num,
            decreases self.entries.len() - i,
        {
            if self.entries[i].0 == driver_num {
                proof {
                    lemma_driver_for(self.entries@, i as int);
                }
                return Some(&self.entries[i].1);
            }
            i = i + 1;
        }
        None
    }

    /// Calls `f` with the driver registered under `driver_num`, or with
    /// `None` when there is none, and returns what `f` returns. The table
    /// itself calls no driver.
    pub fn dispatch<F, R>(&self, driver_num: usize, f: F) -> (result: R) where
        F: FnOnce(Option<&D>) -> R,

        requires
            self.wf(),
            f.requires(
                (match driver_for(self@, driver_num) {
                    Some(d) => Some(&d),
                    None => None,
                },),
            ),
        ensures
            f.ensures(
                (match driver_for(self@, driver_num) {
                    Some(d) => Some(&d),
                    None => None,
                },),
                result,
            ),
    {
        f(self.lookup(driver_num))
    }
}

} // verus!
