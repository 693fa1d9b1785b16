//! The registry of table locks: which lock belongs to which table name.
use vstd::prelude::*;
use vstd::string::*;
use crate::text::str_equal;

verus! {

/// The registry of table locks. Each table name that was ever asked for owns one lock, named
/// by its slot; slots are given out in the order of first asking and are never taken back.
/// The locks themselves are kept by the caller, one for each slot.
#[derive(Debug, Default)]
pub struct AcidSync {
    names: Vec<String>,
}

impl View for AcidSync {
    type V = Seq<Seq<char>>;

    /// The table names, each at its slot.
    closed spec fn view(&self) -> Seq<Seq<char>> {
        self.names@.map_values(|s: String| s@)
    }
}

impl AcidSync {
    /// A registry without locks.
    pub fn new() -> (r: Self)
        ensures
            r@ == Seq::<Seq<char>>::empty(),
    {
        let r = AcidSync { names: Vec::new() };
        assert(r@ =~= Seq::<Seq<char>>::empty());
        r
    }

    /// How many locks the registry has given out.
    pub fn lock_count(&self) -> (r: usize)
        ensures
            r == self@.len(),
    {
        self.names.len()
    }

    /// The slot of the lock of a table: the slot that the name already owns, or else a new
    /// slot at the end. No other slot changes.
    pub fn get_rw_lock(&mut self, table_name: String) -> (r: usize)
        ensures
            r < final(self)@.len(),
            final(self)@[r as int] == table_name@,
            forall|i: int| 0 <= i < r ==> old(self)@[i] != table_name@,
            r < old(self)@.len() ==> final(self)@ == old(self)@,
            r >= old(self)@.len() ==> final(self)@ == old(self)@.push(table_name@),
    {
        let n = self.names.len();
        let mut k: usize = 0;
        while k < n
            invariant
                n == self.names@.len(),
                *self == *old(self),
                k <= n,
                forall|i: int| 0 <= i < k ==> self@[i] != table_name@,
            decreases n - k,
        {
            if str_equal(self.names[k].as_str(), table_name.as_str()) {
                return k;
            }
            k += 1;
        }
        self.names.push(table_name);
        assert(self@ =~= old(self)@.push(table_name@));
        n
    }
}

} // verus!
