//! Dense class tags for one census.
//!
//! Each class met during tagging is given the next integer tag, starting
//! at one, and its signature is recorded so that the traversal callback's
//! tags can be turned back into names.  Tags stay strictly below the
//! visited-mark bit, so a tag can never collide with a marked cell.

use vstd::prelude::*;

use crate::heap::contents::TAG_VISITED_MASK;

verus! {

pub struct Tagger {
    next_class_tag: i64,
    sigs: Vec<String>,
}

impl Tagger {
    /// The recorded signatures, in tag order: tag `t` names `sigs()[t-1]`.
    pub closed spec fn sigs(&self) -> Seq<Seq<char>> {
        self.sigs@.map_values(|s: String| s@)
    }

    /// The tag counter equals the number of recorded signatures.
    pub closed spec fn wf(&self) -> bool {
        self.next_class_tag == self.sigs@.len()
    }

    pub fn new() -> (r: Tagger)
        ensures
            r.wf(),
            r.sigs().len() == 0,
    {
        let r = Tagger { next_class_tag: 0, sigs: Vec::new() };
        proof {
            assert(r.sigs() =~= Seq::<Seq<char>>::empty());
        }
        r
    }

    /// Assigns the next tag to a class and records its signature.  The tag
    /// count must stay below the visited-mark bit.
    pub fn class_tag(&mut self, sig: &String) -> (tag: i64)
        requires
            old(self).wf(),
            old(self).sigs().len() + 1 < TAG_VISITED_MASK,
        ensures
            final(self).wf(),
            tag == old(self).sigs().len() + 1,
            final(self).sigs() == old(self).sigs().push(sig@),
    {
        self.next_class_tag = self.next_class_tag + 1;
        self.sigs.push(sig.clone());
        proof {
            assert(self.sigs() =~= old(self).sigs().push(sig@));
        }
        self.next_class_tag
    }

    /// The signature recorded for `tag`, when `tag` was assigned.
    pub fn class_signature(&self, tag: i64) -> (r: Option<String>)
        requires
            self.wf(),
        ensures
            match r {
                Some(s) => 1 <= tag <= self.sigs().len() && s@ == self.sigs()[tag - 1],
                None => !(1 <= tag <= self.sigs().len()),
            },
    {
        if 1 <= tag && tag <= self.sigs.len() as i64 {
            let i = (tag - 1) as usize;
            Some(self.sigs[i].clone())
        } else {
            None
        }
    }
}

} // verus!
