//! Canonical names for generated sub-tasks.
use vstd::prelude::*;

use crate::strings::{
    ceil_log10, dec_padded, dec_width, lemma_dec_val_of_dec_padded, u64_to_dec_padded,
};

verus! {

/// The optional `_{variant}` tail of a generated name.
pub open spec fn variant_suffix(variant: Option<Seq<char>>) -> Seq<char> {
    match variant {
        Some(v) => seq!['_'] + v,
        None => Seq::<char>::empty(),
    }
}

/// Name of the indexed sub-task `index` out of `total`: the parent name,
/// an underscore, the index zero-padded to the width that fits every
/// index below `total`, and the optional variant tail.
pub open spec fn spec_name_with_index(
    parent: Seq<char>,
    index: nat,
    total: nat,
    variant: Option<Seq<char>>,
) -> Seq<char> {
    parent + seq!['_'] + dec_padded(index, ceil_log10(total)) + variant_suffix(variant)
}

/// Name of the catch-all sub-task: the parent name, `_misc`, and the
/// optional variant tail.
pub open spec fn spec_name_misc(parent: Seq<char>, variant: Option<Seq<char>>) -> Seq<char> {
    parent + seq!['_', 'm', 'i', 's', 'c'] + variant_suffix(variant)
}

pub open spec fn opt_str_view(o: Option<&str>) -> Option<Seq<char>> {
    match o {
        Some(s) => Some(s@),
        None => None,
    }
}

/// Generate a name for a generated task.
///
/// With an index, the name is the zero-padded indexed name; without one
/// it is the `_misc` name. `total_tasks` must accompany an index.
pub fn name_generated_task(
    parent_name: &str,
    task_index: Option<u64>,
    total_tasks: Option<u64>,
    variant: Option<&str>,
) -> (r: String)
    requires
        task_index is Some ==> total_tasks is Some,
    ensures
        match task_index {
            Some(i) => r@ == spec_name_with_index(
                parent_name@,
                i as nat,
                total_tasks->Some_0 as nat,
                opt_str_view(variant),
            ),
            None => r@ == spec_name_misc(parent_name@, opt_str_view(variant)),
        },
{
    proof {
        reveal_strlit("_");
        reveal_strlit("_misc");
        assert("_"@ =~= seq!['_']);
        assert("_misc"@ =~= seq!['_', 'm', 'i', 's', 'c']);
    }
    let mut r = parent_name.to_owned();
    match task_index {
        Some(i) => {
            let w = dec_width(total_tasks.unwrap());
            let padded = u64_to_dec_padded(i, w);
            r.append("_");
            r.append(padded.as_str());
        },
        None => {
            r.append("_misc");
        },
    }
    match variant {
        Some(v) => {
            r.append("_");
            r.append(v);
        },
        None => {},
    }
    r
}

/// Two indexed names built from the same parent, total and variant can
/// only be equal when the indices are equal.
pub proof fn lemma_name_with_index_injective(
    parent: Seq<char>,
    total: nat,
    variant: Option<Seq<char>>,
    i: nat,
    j: nat,
)
    requires
        spec_name_with_index(parent, i, total, variant) == spec_name_with_index(
            parent,
            j,
            total,
            variant,
        ),
    ensures
        i == j,
{
    let w = ceil_log10(total);
    lemma_concat_mid_cancel(
        parent + seq!['_'],
        dec_padded(i, w),
        dec_padded(j, w),
        variant_suffix(variant),
    );
    lemma_dec_val_of_dec_padded(i, w);
    lemma_dec_val_of_dec_padded(j, w);
}

/// Concatenation with a common prefix and suffix is cancellable.
pub proof fn lemma_concat_mid_cancel(p: Seq<char>, m1: Seq<char>, m2: Seq<char>, s: Seq<char>)
    requires
        p + m1 + s == p + m2 + s,
    ensures
        m1 == m2,
{
    assert((p + m1 + s).len() == p.len() + m1.len() + s.len());
    assert((p + m2 + s).len() == p.len() + m2.len() + s.len());
    assert(m1.len() == m2.len());
    assert(m1 =~= m2) by {
        assert forall|k: int| 0 <= k < m1.len() implies m1[k] == m2[k] by {
            assert((p + m1 + s)[p.len() + k] == m1[k]);
            assert((p + m2 + s)[p.len() + k] == m2[k]);
        }
    }
}

} // verus!
