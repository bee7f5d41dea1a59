//! Task-name helpers: indexed sub-suite names and the `_gen` suffix.
use vstd::prelude::*;

use crate::strings::{dec_width, ends_with, spec_ends_with, u64_to_dec_padded};
use crate::util::{opt_str_view, spec_name_with_index};

verus! {

/// The suffix that marks a generator task.
pub open spec fn gen_suffix() -> Seq<char> {
    seq!['_', 'g', 'e', 'n']
}

/// `s` without a trailing `_gen`, or `s` itself when it has none.
pub open spec fn spec_remove_gen_suffix(s: Seq<char>) -> Seq<char> {
    if spec_ends_with(s, gen_suffix()) {
        s.subrange(0, s.len() - 4)
    } else {
        s
    }
}

/// Name a sub-suite of a split task: the parent name, an underscore,
/// the zero-padded index, and the optional build-variant tail.
pub fn name_sub_suite(
    parent_name: &str,
    task_index: u64,
    total_tasks: u64,
    build_variant: Option<&str>,
) -> (r: String)
    ensures
        r@ == spec_name_with_index(
            parent_name@,
            task_index as nat,
            total_tasks as nat,
            opt_str_view(build_variant),
        ),
{
    proof {
        reveal_strlit("_");
        assert("_"@ =~= seq!['_']);
    }
    let w = dec_width(total_tasks);
    let padded = u64_to_dec_padded(task_index, w);
    let mut r = parent_name.to_owned();
    r.append("_");
    r.append(padded.as_str());
    match build_variant {
        Some(bv) => {
            r.append("_");
            r.append(bv);
        },
        None => {},
    }
    r
}

/// Remove a trailing `_gen` from a task name, returning a new string.
pub fn remove_gen_suffix(task_name: &str) -> (r: String)
    ensures
        r@ == spec_remove_gen_suffix(task_name@),
{
    remove_gen_suffix_ref(task_name).to_owned()
}

/// Remove a trailing `_gen` from a task name, borrowing from the input.
pub fn remove_gen_suffix_ref<'a>(task_name: &'a str) -> (r: &'a str)
    ensures
        r@ == spec_remove_gen_suffix(task_name@),
{
    proof {
        reveal_strlit("_gen");
        assert("_gen"@ =~= gen_suffix());
    }
    if ends_with(task_name, "_gen") {
        let n = task_name.unicode_len();
        task_name.substring_char(0, n - 4)
    } else {
        task_name
    }
}

} // verus!
