//! Rendering of an argument vector as a human-readable command string.
//! The string is for display and audit only; callers execute the argument
//! vector itself, never this string.

use vstd::prelude::*;
use crate::text::join_seq;
use crate::text::join_with;
use crate::text::str_contains_char;

verus! {

/// The escaped form of one character inside a quoted argument.
pub open spec fn quote_escape_char(c: char) -> Seq<char> {
    if c == '"' {
        seq!['\\', '"']
    } else {
        seq![c]
    }
}

/// Each embedded double quote preceded by a backslash.
pub open spec fn spec_quote_escaped(s: Seq<char>) -> Seq<char>
    decreases s.len(),
{
    if s.len() == 0 {
        Seq::empty()
    } else {
        quote_escape_char(s[0]) + spec_quote_escaped(s.drop_first())
    }
}

proof fn lemma_quote_escaped_snoc(s: Seq<char>, c: char)
    ensures
        spec_quote_escaped(s.push(c)) == spec_quote_escaped(s) + quote_escape_char(c),
    decreases s.len(),
{
    let e = s.push(c);
    assert(e.len() == s.len() + 1);
    assert(e[0] == if s.len() == 0 { c } else { s[0] });
    if s.len() == 0 {
        assert(e.drop_first() =~= Seq::<char>::empty());
        assert(spec_quote_escaped(e) == quote_escape_char(c) + spec_quote_escaped(
            e.drop_first(),
        ));
        assert(spec_quote_escaped(e) =~= spec_quote_escaped(s) + quote_escape_char(c));
    } else {
        assert(e.drop_first() =~= s.drop_first().push(c));
        lemma_quote_escaped_snoc(s.drop_first(), c);
        assert(spec_quote_escaped(e) == quote_escape_char(s[0]) + spec_quote_escaped(
            e.drop_first(),
        ));
        assert(spec_quote_escaped(e) =~= spec_quote_escaped(s) + quote_escape_char(c));
    }
}

/// An argument containing a space is wrapped in double quotes with embedded
/// double quotes escaped; any other argument is left bare.
pub open spec fn spec_format_arg(s: Seq<char>) -> Seq<char> {
    if s.contains(' ') {
        seq!['"'] + spec_quote_escaped(s) + seq!['"']
    } else {
        s
    }
}

/// Formats one argument for display, matching `spec_format_arg`.
pub fn format_arg(value: &str) -> (r: String)
    ensures
        r@ == spec_format_arg(value@),
{
    if !str_contains_char(value, ' ') {
        return value.to_owned();
    }
    let n = value.unicode_len();
    let mut r = ("\"").to_owned();
    proof {
        reveal_strlit("\"");
        assert(r@ =~= seq!['"'] + spec_quote_escaped(value@.take(0)));
    }
    let mut i: usize = 0;
    while i < n
        invariant
            i <= n,
            n == value@.len(),
            r@ == seq!['"'] + spec_quote_escaped(value@.take(i as int)),
        decreases n - i,
    {
        let c = value.get_char(i);
        if c == '"' {
            r.append("\\");
            proof {
                reveal_strlit("\\");
            }
        }
        let piece = value.substring_char(i, i + 1);
        r.append(piece);
        proof {
            assert(piece@ =~= seq![value@[i as int]]);
            assert(value@.take(i + 1) =~= value@.take(i as int).push(value@[i as int]));
            lemma_quote_escaped_snoc(value@.take(i as int), value@[i as int]);
            assert(r@ =~= seq!['"'] + spec_quote_escaped(value@.take(i + 1)));
        }
        i += 1;
    }
    r.append("\"");
    proof {
        reveal_strlit("\"");
        assert(value@.take(n as int) =~= value@);
        assert(r@ =~= spec_format_arg(value@));
    }
    r
}

/// The executable and all arguments, each formatted, joined with single
/// spaces.
pub open spec fn spec_command_string(executable: Seq<char>, args: Seq<Seq<char>>) -> Seq<char> {
    join_seq(
        seq![spec_format_arg(executable)] + args.map_values(|a: Seq<char>| spec_format_arg(a)),
        " "@,
    )
}

/// Renders the displayable command string, matching `spec_command_string`.
pub fn build_command_string(executable: &str, args: &Vec<String>) -> (r: String)
    ensures
        r@ == spec_command_string(executable@, args@.map_values(|a: String| a@)),
{
    let ghost arg_views = args@.map_values(|a: String| a@);
    let mut parts: Vec<String> = Vec::new();
    parts.push(format_arg(executable));
    let mut i: usize = 0;
    while i < args.len()
        invariant
            i <= args.len(),
            arg_views == args@.map_values(|a: String| a@),
            parts@.map_values(|p: String| p@) =~= seq![spec_format_arg(executable@)]
                + arg_views.take(i as int).map_values(|a: Seq<char>| spec_format_arg(a)),
        decreases args.len() - i,
    {
        let ghost prev = parts@.map_values(|p: String| p@);
        parts.push(format_arg(args[i].as_str()));
        proof {
            assert(parts@.map_values(|p: String| p@) =~= prev.push(
                spec_format_arg(arg_views[i as int]),
            ));
            assert(arg_views.take(i + 1) =~= arg_views.take(i as int).push(arg_views[i as int]));
            assert(arg_views.take(i + 1).map_values(|a: Seq<char>| spec_format_arg(a))
                =~= arg_views.take(i as int).map_values(|a: Seq<char>| spec_format_arg(a)).push(
                spec_format_arg(arg_views[i as int]),
            ));
            assert(parts@.map_values(|p: String| p@) =~= seq![spec_format_arg(executable@)]
                + arg_views.take(i + 1).map_values(|a: Seq<char>| spec_format_arg(a)));
        }
        i += 1;
    }
    proof {
        assert(arg_views.take(args.len() as int) =~= arg_views);
    }
    join_with(&parts, " ")
}

} // verus!
