//! The tag-to-signature table of the newer census flow.
//!
//! Tags are dense indices from zero: the binding layer walks the loaded
//! classes, hands each signature over in order, and tags the class with
//! the index this table assigned.

use vstd::prelude::*;

use crate::heap::contents::TAG_VISITED_MASK;

verus! {

pub struct Types {
    types: Vec<String>,
}

impl Types {
    /// The recorded signatures: tag `t` names `sigs()[t]`.
    pub closed spec fn sigs(&self) -> Seq<Seq<char>> {
        self.types@.map_values(|s: String| s@)
    }

    pub fn new() -> (r: Types)
        ensures
            r.sigs().len() == 0,
    {
        let r = Types { types: Vec::new() };
        proof {
            assert(r.sigs() =~= Seq::<Seq<char>>::empty());
        }
        r
    }

    /// Records one class signature and returns the tag assigned to it: the
    /// next free index.  Tags stay below the visited-mark bit.
    pub fn tag_class(&mut self, signature: String) -> (tag: i64)
        requires
            old(self).sigs().len() < TAG_VISITED_MASK,
        ensures
            tag == old(self).sigs().len(),
            final(self).sigs() == old(self).sigs().push(signature@),
    {
        let tag = self.types.len() as i64;
        self.types.push(signature);
        proof {
            assert(self.sigs() =~= old(self).sigs().push(self.types@.last()@));
        }
        tag
    }

    /// Records a whole list of class signatures, in order.
    pub fn tag_classes(&mut self, signatures: Vec<String>)
        requires
            old(self).sigs().len() + signatures@.len() < TAG_VISITED_MASK,
        ensures
            final(self).sigs() == old(self).sigs() + signatures@.map_values(|s: String| s@),
    {
        let ghost all = signatures@.map_values(|s: String| s@);
        let n = signatures.len();
        let mut i: usize = 0;
        while i < n
            invariant
                i <= n,
                n == signatures@.len(),
                all == signatures@.map_values(|s: String| s@),
                self.sigs().len() == old(self).sigs().len() + i,
                self.sigs() =~= old(self).sigs() + all.subrange(0, i as int),
                old(self).sigs().len() + n < TAG_VISITED_MASK,
            decreases n - i,
        {
            let s = signatures[i].clone();
            proof {
                assert(all[i as int] == signatures@[i as int]@);
                assert((old(self).sigs() + all.subrange(0, i as int)).push(all[i as int])
                    =~= old(self).sigs() + all.subrange(0, i + 1));
            }
            self.tag_class(s);
            i = i + 1;
        }
        proof {
            assert(all.subrange(0, n as int) =~= all);
        }
    }

    /// The number of recorded signatures.
    pub fn len(&self) -> (r: usize)
        ensures
            r == self.sigs().len(),
    {
        proof {
            assert(self.sigs().len() == self.types@.len());
        }
        self.types.len()
    }

    /// The signature recorded for `tag`.
    pub fn get(&self, tag: i64) -> (r: &String)
        requires
            0 <= tag < self.sigs().len(),
        ensures
            r@ == self.sigs()[tag as int],
    {
        let n = self.types.len();
        proof {
            assert(self.sigs().len() == self.types@.len());
            assert(0 <= tag as int && (tag as int) < (n as int));
            assert(self.sigs()[tag as int] == self.types@[tag as int]@);
        }
        let idx: usize = tag as usize;
        &self.types[idx]
    }
}

} // verus!
