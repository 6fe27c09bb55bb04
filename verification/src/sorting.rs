//! A stable sort of records by a string key.
use vstd::prelude::*;
use crate::text::{lex_lt, lemma_lex_lt_total, lemma_lex_lt_transitive, str_lt};

verus! {

broadcast use {
    vstd::seq_lib::group_to_multiset_ensures,
    vstd::seq_lib::to_multiset_insert,
    vstd::multiset::group_multiset_axioms,
};

/// A record ordered by a string key.
pub trait Keyed {
    /// The key the record is ordered by.
    spec fn sort_key(&self) -> Seq<char>;

    /// The key, as a string.
    fn key_str(&self) -> (r: &str)
        ensures
            r@ == self.sort_key(),
    ;
}

/// Each record's key is at most the keys of the records after it.
pub open spec fn sorted_by_key<T: Keyed>(s: Seq<T>) -> bool {
    forall|i: int, j: int| 0 <= i < j < s.len() ==> !lex_lt(s[j].sort_key(), s[i].sort_key())
}

/// Inserts `x` after the records whose key is at most its own.
fn insert_sorted<T: Keyed>(out: &mut Vec<T>, x: T)
    requires
        sorted_by_key(old(out)@),
    ensures
        sorted_by_key(final(out)@),
        final(out)@.to_multiset() == old(out)@.to_multiset().insert(x),
{
    let mut pos: usize = 0;
    while pos < out.len()
        invariant
            pos <= out@.len(),
            forall|i: int| 0 <= i < pos ==> !lex_lt(x.sort_key(), #[trigger] out@[i].sort_key()),
        ensures
            pos <= out@.len(),
            forall|i: int| 0 <= i < pos ==> !lex_lt(x.sort_key(), #[trigger] out@[i].sort_key()),
            pos < out@.len() ==> lex_lt(x.sort_key(), out@[pos as int].sort_key()),
        decreases out@.len() - pos,
    {
        if str_lt(x.key_str(), out[pos].key_str()) {
            break;
        }
        pos = pos + 1;
    }
    let ghost before = out@;
    out.insert(pos, x);
    proof {
        assert(out@ =~= before.insert(pos as int, x));
        assert(out@[pos as int] == x);
        assert forall|i: int, j: int| 0 <= i < j < out@.len() implies !lex_lt(
            out@[j].sort_key(),
            out@[i].sort_key(),
        ) by {
            if j < pos {
                assert(out@[i] == before[i] && out@[j] == before[j]);
            } else if j == pos {
                assert(out@[i] == before[i]);
            } else if i == pos {
                assert(out@[j] == before[j - 1]);
                assert(lex_lt(x.sort_key(), before[pos as int].sort_key()));
                lemma_lex_lt_total(before[pos as int].sort_key(), before[pos as int].sort_key());
                if lex_lt(before[j - 1].sort_key(), x.sort_key()) {
                    lemma_lex_lt_transitive(before[j - 1].sort_key(), x.sort_key(), before[pos as int].sort_key());
                }
            } else if i < pos {
                assert(out@[i] == before[i] && out@[j] == before[j - 1]);
            } else {
                assert(out@[i] == before[i - 1] && out@[j] == before[j - 1]);
            }
        }
    }
}

/// The records ordered by key; records with equal keys keep their order.
pub fn sort_by_key<T: Keyed>(v: Vec<T>) -> (r: Vec<T>)
    ensures
        r@.to_multiset() == v@.to_multiset(),
        sorted_by_key(r@),
{
    let mut rest = v;
    let mut out: Vec<T> = Vec::new();
    proof {
        assert(out@.to_multiset() =~= vstd::multiset::Multiset::empty());
        assert(out@.to_multiset().add(rest@.to_multiset()) =~= v@.to_multiset());
    }
    while rest.len() > 0
        invariant
            sorted_by_key(out@),
            out@.to_multiset().add(rest@.to_multiset()) == v@.to_multiset(),
        decreases rest@.len(),
    {
        let ghost before_rest = rest@;
        let ghost before_out = out@;
        let x = rest.remove(0);
        proof {
            assert(rest@ =~= before_rest.remove(0));
            assert(before_rest.to_multiset() =~= rest@.to_multiset().insert(x));
        }
        insert_sorted(&mut out, x);
        proof {
            assert(out@.to_multiset().add(rest@.to_multiset()) =~= before_out.to_multiset().add(
                before_rest.to_multiset(),
            ));
        }
    }
    proof {
        assert(rest@.to_multiset().len() == 0);
        assert(rest@.to_multiset() =~= vstd::multiset::Multiset::empty());
        assert(out@.to_multiset().add(rest@.to_multiset()) =~= out@.to_multiset());
    }
    out
}

} // verus!
