//! Building argument lists for external programs.
use vstd::prelude::*;

verus! {

/// The views of a list of owned texts.
pub open spec fn views(v: Seq<String>) -> Seq<Seq<char>> {
    v.map_values(|a: String| a@)
}

/// Appends one argument.
pub fn push_arg(args: &mut Vec<String>, a: &str)
    ensures
        views(final(args)@) == views(old(args)@).push(a@),
{
    args.push(String::from_str(a));
    assert(views(args@) =~= views(old(args)@).push(a@));
}

/// Appends every text of `extra`, in order.
pub fn extend_args(args: &mut Vec<String>, extra: &[&str])
    ensures
        views(final(args)@) == views(old(args)@) + extra@.map_values(|a: &str| a@),
{
    let mut i: usize = 0;
    while i < extra.len()
        invariant
            i <= extra@.len(),
            views(args@) == views(old(args)@) + extra@.subrange(0, i as int).map_values(
                |a: &str| a@,
            ),
        decreases extra@.len() - i,
    {
        push_arg(args, extra[i]);
        assert(extra@.subrange(0, i + 1).map_values(|a: &str| a@) =~= extra@.subrange(
            0,
            i as int,
        ).map_values(|a: &str| a@).push(extra@[i as int]@));
        i = i + 1;
    }
    assert(extra@.subrange(0, i as int) =~= extra@);
}

} // verus!
