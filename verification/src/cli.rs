use vstd::prelude::*;
use crate::text::str_eq;

verus! {

/// The value that follows the first occurrence of `flag` in `args`, if any.
pub open spec fn spec_flag_value(args: Seq<Seq<char>>, flag: Seq<char>) -> Option<Seq<char>>
    decreases args.len(),
{
    if args.len() == 0 {
        None
    } else if args[0] == flag {
        if args.len() >= 2 {
            Some(args[1])
        } else {
            None
        }
    } else {
        spec_flag_value(args.drop_first(), flag)
    }
}

/// Return the argument that follows the first occurrence of `flag`.
/// Returns `None` when `flag` does not occur or is the last argument.
pub fn parse_path_flag(args: &[String], flag: &str) -> (res: Option<String>)
    ensures
        res matches Some(v) ==> spec_flag_value(args@.map_values(|a: String| a@), flag@) == Some(v@),
        res is None ==> spec_flag_value(args@.map_values(|a: String| a@), flag@) is None,
{
    let ghost views = args@.map_values(|a: String| a@);
    let mut i: usize = 0;
    assert(views.skip(0) =~= views);
    while i < args.len()
        invariant
            i <= args.len(),
            views == args@.map_values(|a: String| a@),
            spec_flag_value(views, flag@) == spec_flag_value(views.skip(i as int), flag@),
        decreases args.len() - i,
    {
        assert(views.skip(i as int).drop_first() =~= views.skip(i + 1));
        assert(views.skip(i as int)[0] == args@[i as int]@);
        if str_eq(args[i].as_str(), flag) {
            if i + 1 < args.len() {
                assert(views.skip(i as int)[1] == args@[i + 1]@);
                return Some(args[i + 1].clone());
            }
            return None;
        }
        i += 1;
    }
    None
}

} // verus!
