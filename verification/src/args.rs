//! Command-line flags.

use vstd::prelude::*;
use crate::text::{after_prefix, chars_of, same, string_of, strip_prefix};

verus! {

/// What an argument gives for `flag`: `--flag value` or `--flag=value`, whichever comes first. A
/// flag at the very end has no value.
pub open spec fn flag_in(args: Seq<Seq<char>>, flag: Seq<char>) -> Option<Seq<char>>
    decreases args.len(),
{
    if args.len() == 0 {
        None
    } else if args[0] == flag {
        if args.len() > 1 {
            Some(args[1])
        } else {
            None
        }
    } else {
        match after_prefix(args[0], flag + "="@) {
            Some(rest) => Some(rest),
            None => flag_in(args.skip(1), flag),
        }
    }
}

/// What slice arguments hold.
pub open spec fn args_view(args: Seq<String>) -> Seq<Seq<char>> {
    Seq::new(args.len(), |i: int| args[i]@)
}

/// The value of a flag.
pub fn flag_value(args: &[String], flag: &str) -> (r: Option<String>)
    ensures
        r.deep_view() == flag_in(args_view(args@), flag@),
{
    let ghost all = args_view(args@);
    let prefix = flag.to_string().concat("=");
    let mut i: usize = 0;
    assert(all.skip(0) == all);
    while i < args.len()
        invariant
            i <= args@.len(),
            all == args_view(args@),
            prefix@ == flag@ + "="@,
            flag_in(all, flag@) == flag_in(all.skip(i as int), flag@),
        decreases args@.len() - i,
    {
        assert(all.skip(i as int)[0] == args@[i as int]@);
        assert(all.skip(i as int).skip(1) == all.skip(i + 1));
        if same(&args[i], flag) {
            if i + 1 < args.len() {
                assert(all.skip(i as int)[1] == args@[i + 1]@);
                return Some(args[i + 1].clone());
            }
            return None;
        }
        let a = chars_of(&args[i]);
        if let Some(rest) = strip_prefix(&a, &prefix) {
            assert(rest.deep_view() =~= rest@);
            return Some(string_of(rest));
        }
        i += 1;
    }
    None
}

/// A flag has the value that follows it or stands behind its equals sign, and the first one given
/// counts; arguments that are no such flag are passed over, and without it there is no value.
pub proof fn law_flag_has_its_value(
    before: Seq<Seq<char>>,
    flag: Seq<char>,
    value: Seq<char>,
    after: Seq<Seq<char>>,
)
    requires
        forall|i: int|
            0 <= i < before.len() ==> (#[trigger] before[i]) != flag && !(flag
                + "="@).is_prefix_of(before[i]),
    ensures
        flag_in(before + seq![flag, value] + after, flag) == Some(value),
        flag_in(before + seq![flag + "="@ + value] + after, flag) == Some(value),
        flag_in(before, flag) is None,
        flag_in(before.push(flag), flag) is None,
    decreases before.len(),
{
    let spaced = before + seq![flag, value] + after;
    let joint = before + seq![flag + "="@ + value] + after;
    if before.len() == 0 {
        assert(spaced[0] == flag && spaced[1] == value);
        let eq = flag + "="@;
        assert(joint[0] == eq + value);
        reveal_strlit("=");
        assert(joint[0].len() > flag.len());
        assert(eq.is_prefix_of(eq + value));
        assert((eq + value).skip(eq.len() as int) =~= value);
        assert(before.push(flag)[0] == flag);
    } else {
        let rest = before.skip(1);
        assert forall|i: int| 0 <= i < rest.len() implies (#[trigger] rest[i]) != flag && !(flag
            + "="@).is_prefix_of(rest[i]) by {
            assert(rest[i] == before[i + 1]);
        }
        law_flag_has_its_value(rest, flag, value, after);
        assert(before[0] != flag);
        assert(spaced.skip(1) =~= rest + seq![flag, value] + after);
        assert(joint.skip(1) =~= rest + seq![flag + "="@ + value] + after);
        assert(before.push(flag).skip(1) =~= rest.push(flag));
        assert(spaced[0] == before[0] && joint[0] == before[0] && before.push(flag)[0]
            == before[0]);
    }
}

} // verus!
