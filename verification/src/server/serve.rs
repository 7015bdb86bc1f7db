//! Command-line arguments of the server: `--name value` / `--name=value`.

use vstd::prelude::*;
use crate::text::{chars_of, parse_u16, parse_u16_exec, slice_exec, starts_with, starts_with_exec, string_of};

verus! {

/// The value of the first `--name value` / `--name=value` from `i` on; a
/// `--name` with nothing after it has no value.
pub open spec fn value_from(args: Seq<Seq<char>>, name: Seq<char>, i: int) -> Option<Seq<char>>
    decreases args.len() - i,
{
    if i < 0 || i >= args.len() {
        None
    } else if args[i] == name {
        if i + 1 < args.len() {
            Some(args[i + 1])
        } else {
            None
        }
    } else if starts_with(args[i], name + "="@) {
        Some(args[i].subrange(name.len() as int + 1, args[i].len() as int))
    } else {
        value_from(args, name, i + 1)
    }
}

pub open spec fn args_view(args: Seq<String>) -> Seq<Seq<char>> {
    args.map_values(|s: String| s@)
}

pub open spec fn opt_string_view(o: Option<String>) -> Option<Seq<char>> {
    match o {
        Some(s) => Some(s@),
        None => None,
    }
}

/// The value of `--name value` or `--name=value` in `args`.
pub fn parse_value(args: &[String], name: &str) -> (r: Option<String>)
    ensures
        opt_string_view(r) == value_from(args_view(args@), name@, 0),
{
    proof {
        reveal_strlit("=");
    }
    let ghost av = args_view(args@);
    let mut prefix = chars_of(name);
    prefix.push('=');
    assert(prefix@ == name@ + "="@);
    let n = chars_of(name);
    let mut i: usize = 0;
    while i < args.len()
        invariant
            i <= args@.len(),
            av == args_view(args@),
            prefix@ == name@ + "="@,
            prefix@.len() == n@.len() + 1,
            n@ == name@,
            value_from(av, name@, 0) == value_from(av, name@, i as int),
        decreases args@.len() - i,
    {
        let a = chars_of(args[i].as_str());
        assert(av[i as int] == a@);
        if crate::text::eq_str_exec(a.as_slice(), name) {
            if i + 1 < args.len() {
                assert(av[i + 1] == args@[i + 1]@);
                return Some(args[i + 1].clone());
            }
            return None;
        }
        if starts_with_exec(a.as_slice(), prefix.as_slice()) {
            assert(prefix@.len() == n@.len() + 1);
            return Some(string_of(slice_exec(a.as_slice(), prefix.len(), a.len()).as_slice()));
        }
        i += 1;
    }
    None
}

/// The value of a flag naming a path.
pub fn parse_flag(args: &[String], name: &str) -> (r: Option<String>)
    ensures
        opt_string_view(r) == value_from(args_view(args@), name@, 0),
{
    parse_value(args, name)
}

/// `--config <path>`.
pub fn parse_config_arg(args: &[String]) -> (r: Option<String>)
    ensures
        opt_string_view(r) == value_from(args_view(args@), "--config"@, 0),
{
    parse_flag(args, "--config")
}

/// A `--port` value.
pub fn parse_port(s: &str) -> (r: Option<u16>)
    ensures
        r == parse_u16(s@),
{
    parse_u16_exec(chars_of(s).as_slice())
}

} // verus!
