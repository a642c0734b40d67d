//! The text of a whole valuation with an architecture's names.
use crate::analysis::valuation::jingle_display::{
    ArchNames, cat, push_value_jingle, push_vn_jingle, value_jingle, vn_jingle,
};
use crate::analysis::valuation::state::ValuationState;
use crate::analysis::valuation::valuation::{Location, ValuationSet};
use crate::analysis::valuation::value::Value;
use vstd::prelude::*;

verus! {

/// One valued location as `location = value` with the architecture's
/// names, a memory location in brackets.
pub open spec fn entry_jingle(e: (Location, Value), names: ArchNames) -> Option<Seq<char>> {
    match e.0 {
        Location::Direct(vn) => cat(cat(vn_jingle(vn, names), Some(" = "@)), value_jingle(e.1, names)),
        Location::Indirect(lk) => cat(
            cat(cat(Some("["@), value_jingle(lk, names)), Some("] = "@)),
            value_jingle(e.1, names),
        ),
    }
}

/// The entries with the architecture's names, separated by commas.
pub open spec fn entries_jingle(s: Seq<(Location, Value)>, names: ArchNames) -> Option<Seq<char>>
    decreases s.len(),
{
    if s.len() == 0 {
        Some(Seq::empty())
    } else if s.len() == 1 {
        entry_jingle(s[0], names)
    } else {
        cat(cat(entries_jingle(s.drop_last(), names), Some(", "@)), entry_jingle(s.last(), names))
    }
}

fn push_entry_jingle(s: &mut String, e: &(Location, Value), names: &ArchNames) -> (ok: bool)
    ensures
        ok == entry_jingle(*e, *names) is Some,
        ok ==> final(s)@ == old(s)@ + entry_jingle(*e, *names)->0,
{
    match &e.0 {
        Location::Direct(vn) => {
            if !push_vn_jingle(s, vn, names) {
                return false;
            }
            s.append(" = ");
        },
        Location::Indirect(lk) => {
            s.append("[");
            if !push_value_jingle(s, lk, names) {
                return false;
            }
            s.append("] = ");
        },
    }
    if !push_value_jingle(s, &e.1, names) {
        return false;
    }
    proof {
        assert(final(s)@ =~= old(s)@ + entry_jingle(*e, *names)->0);
    }
    true
}

proof fn lemma_entries_jingle_none(s: Seq<(Location, Value)>, j: int, names: ArchNames)
    requires
        0 <= j < s.len(),
        entry_jingle(s[j], names) is None,
    ensures
        forall|k: int| j < k <= s.len() ==> #[trigger] entries_jingle(s.subrange(0, k), names) is None,
    decreases s.len(),
{
    assert forall|k: int| j < k <= s.len() implies #[trigger] entries_jingle(s.subrange(0, k), names) is None by {
        lemma_prefix_none(s, j, k, names);
    }
}

proof fn lemma_prefix_none(s: Seq<(Location, Value)>, j: int, k: int, names: ArchNames)
    requires
        0 <= j < k <= s.len(),
        entry_jingle(s[j], names) is None,
    ensures
        entries_jingle(s.subrange(0, k), names) is None,
    decreases k,
{
    let sub = s.subrange(0, k);
    if k == j + 1 {
        assert(sub.last() == s[j]);
        if k > 1 {
            assert(sub.drop_last() =~= s.subrange(0, k - 1));
        }
    } else {
        assert(sub.drop_last() =~= s.subrange(0, k - 1));
        lemma_prefix_none(s, j, k - 1, names);
    }
}

proof fn lemma_entries_step(s: Seq<(Location, Value)>, i: int, names: ArchNames)
    requires
        0 <= i < s.len(),
        entries_jingle(s.subrange(0, i), names) is Some,
        entry_jingle(s[i], names) is Some,
    ensures
        entries_jingle(s.subrange(0, i + 1), names) == Some(
            entries_jingle(s.subrange(0, i), names)->0 + (if i > 0 {
                ", "@
            } else {
                Seq::empty()
            }) + entry_jingle(s[i], names)->0,
        ),
{
    let sub = s.subrange(0, i + 1);
    assert(sub.drop_last() =~= s.subrange(0, i));
    assert(sub.last() == s[i]);
    if i == 0 {
        assert(sub[0] == s[0]);
        assert(entries_jingle(s.subrange(0, 0), names) == Some(Seq::<char>::empty()));
        assert(Seq::<char>::empty() + Seq::<char>::empty() + entry_jingle(s[i], names)->0 =~= entry_jingle(
            s[i],
            names,
        )->0);
    }
}

impl ValuationSet {
    /// `Valuation {`, the valued locations as `location = value` with the
    /// architecture's names, separated by commas, in the order of `iter`,
    /// then `}`; `None` when a space they name is unknown.
    pub fn fmt_jingle(&self, info: &ArchNames) -> (r: Option<String>)
        requires
            self.wf(),
        ensures
            match r {
                Some(t) => cat(
                    cat(Some("Valuation {"@), entries_jingle(self.spec_entries(), *info)),
                    Some("}"@),
                ) == Some(t@),
                None => entries_jingle(self.spec_entries(), *info) is None,
            },
    {
        let items = self.iter();
        let mut s = String::from_str("Valuation {");
        let n = items.len();
        let mut i: usize = 0;
        while i < n
            invariant
                n == items@.len(),
                items@ == self.spec_entries(),
                i <= n,
                entries_jingle(items@.subrange(0, i as int), *info) is Some,
                s@ == "Valuation {"@ + entries_jingle(items@.subrange(0, i as int), *info)->0,
            decreases n - i,
        {
            let ghost before = s@;
            let ghost prev = entries_jingle(items@.subrange(0, i as int), *info)->0;
            if i > 0 {
                s.append(", ");
            }
            let ghost mid = s@;
            let ok = push_entry_jingle(&mut s, &items[i], info);
            if !ok {
                proof {
                    lemma_entries_jingle_none(items@, i as int, *info);
                    assert(items@.subrange(0, n as int) =~= items@);
                    assert(entries_jingle(items@.subrange(0, n as int), *info) is None);
                }
                return None;
            }
            proof {
                lemma_entries_step(items@, i as int, *info);
                if i > 0 {
                    assert(mid == before + ", "@);
                } else {
                    assert(mid == before);
                }
                assert(s@ =~= "Valuation {"@ + entries_jingle(items@.subrange(0, i + 1), *info)->0);
            }
            i += 1;
        }
        s.append("}");
        proof {
            assert(items@.subrange(0, n as int) =~= items@);
            assert(s@ =~= "Valuation {"@ + entries_jingle(self.spec_entries(), *info)->0 + "}"@);
        }
        Some(s)
    }
}

impl ValuationState {
    /// The state's valuation as text with the architecture's names (see
    /// `ValuationSet::fmt_jingle`).
    pub fn fmt_jingle(&self, info: &ArchNames) -> (r: Option<String>)
        requires
            self.wf(),
        ensures
            match r {
                Some(t) => cat(
                    cat(Some("Valuation {"@), entries_jingle(self.spec_valuation().spec_entries(), *info)),
                    Some("}"@),
                ) == Some(t@),
                None => entries_jingle(self.spec_valuation().spec_entries(), *info) is None,
            },
    {
        self.valuation().fmt_jingle(info)
    }
}

} // verus!
