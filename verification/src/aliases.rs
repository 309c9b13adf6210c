//! The alias table: which rapid line is shown in the row of which parent line.

use crate::text::str_eq;
use vstd::prelude::*;

verus! {

/// An alias table, as contracts see it: from a child line to its parent.
pub type AliasMap = Map<Seq<char>, Seq<char>>;

/// The mapping that a list of (child, parent) pairs stands for; where a child
/// occurs twice, the later pair counts.
pub open spec fn pairs_map(pairs: Seq<(Seq<char>, Seq<char>)>) -> AliasMap
    decreases pairs.len(),
{
    if pairs.len() == 0 {
        Map::empty()
    } else {
        pairs_map(pairs.drop_last()).insert(pairs.last().0, pairs.last().1)
    }
}

/// An immutable-once-built mapping from a child line to its parent line.
#[derive(Debug)]
pub struct AliasTable {
    pairs: Vec<(String, String)>,
}

impl View for AliasTable {
    type V = AliasMap;

    closed spec fn view(&self) -> AliasMap {
        pairs_map(self.pairs.deep_view())
    }
}

impl AliasTable {
    /// A table without aliases.
    pub fn new() -> (r: Self)
        ensures
            r@ == Map::<Seq<char>, Seq<char>>::empty(),
    {
        let r = AliasTable { pairs: Vec::new() };
        assert(r.pairs.deep_view() =~= Seq::empty());
        r
    }

    /// Records that `child` is shown under `parent`, replacing what was
    /// recorded for `child` before.
    pub fn insert(&mut self, child: String, parent: String)
        ensures
            final(self)@ == old(self)@.insert(child@, parent@),
    {
        let ghost before = self.pairs.deep_view();
        self.pairs.push((child, parent));
        proof {
            let after = self.pairs.deep_view();
            assert(after.drop_last() =~= before);
            assert(after.last() == (child@, parent@));
        }
    }

    /// The table that a list of (child, parent) pairs stands for, later pairs
    /// overriding earlier ones for the same child.
    pub fn from_pairs(pairs: Vec<(String, String)>) -> (r: Self)
        ensures
            r@ == pairs_map(pairs.deep_view()),
    {
        AliasTable { pairs }
    }

    /// The parent line recorded for `line_ref`, if any.
    pub fn get(&self, line_ref: &str) -> (r: Option<&String>)
        ensures
            match r {
                Some(parent) => self@.contains_key(line_ref@) && parent@ == self@[line_ref@],
                None => !self@.contains_key(line_ref@),
            },
    {
        let ghost all = self.pairs.deep_view();
        let mut i: usize = self.pairs.len();
        proof {
            assert(all.take(i as int) =~= all);
        }
        while i > 0
            invariant
                i <= self.pairs.len(),
                all == self.pairs.deep_view(),
                pairs_map(all).contains_key(line_ref@) == pairs_map(
                    all.take(i as int),
                ).contains_key(line_ref@),
                pairs_map(all).contains_key(line_ref@) ==> pairs_map(all)[line_ref@] == pairs_map(
                    all.take(i as int),
                )[line_ref@],
            decreases i,
        {
            proof {
                let pre = all.take(i as int);
                assert(pre.drop_last() =~= all.take(i - 1));
                assert(pre.last() == all[i - 1]);
            }
            if str_eq(self.pairs[i - 1].0.as_str(), line_ref) {
                return Some(&self.pairs[i - 1].1);
            }
            i = i - 1;
        }
        None
    }
}

} // verus!
