//! Collision-free output paths: a parenthesized counter is inserted before
//! the file extension until a candidate is free, with a bounded search and
//! a fall-back to the requested path. The caller supplies the set of paths
//! already taken; nothing here touches a file system.

use vstd::prelude::*;
use crate::text::dec_seq;
use crate::text::str_eq;
use crate::text::u64_to_string;

verus! {

/// Path separators recognized when splitting off the directory prefix.
pub open spec fn is_sep(c: char) -> bool {
    c == '/' || c == '\\'
}

fn sep_char(c: char) -> (r: bool)
    ensures
        r == is_sep(c),
{
    c == '/' || c == '\\'
}

/// The length of the directory prefix of `s`, separator included; zero when
/// `s` holds no separator.
pub open spec fn dir_prefix_len(s: Seq<char>) -> int
    decreases s.len(),
{
    if s.len() == 0 {
        0
    } else if is_sep(s.last()) {
        s.len() as int
    } else {
        dir_prefix_len(s.drop_last())
    }
}

/// The index of the last dot of a file name, or -1 when it has none.
pub open spec fn last_dot(name: Seq<char>) -> int
    decreases name.len(),
{
    if name.len() == 0 {
        -1
    } else if name.last() == '.' {
        name.len() - 1
    } else {
        last_dot(name.drop_last())
    }
}

/// A file name has an extension only when its last dot leaves a nonempty
/// stem, so a leading dot alone marks a hidden name, not an extension.
pub open spec fn has_ext(name: Seq<char>) -> bool {
    last_dot(name) >= 1
}

/// Candidate number `index` for a requested path: the path itself for zero,
/// else the counter in parentheses between stem and extension.
pub open spec fn spec_candidate(path: Seq<char>, index: nat) -> Seq<char> {
    if index == 0 {
        path
    } else {
        let d = dir_prefix_len(path);
        let name = path.skip(d);
        let dir = path.take(d);
        if has_ext(name) {
            dir + name.take(last_dot(name)) + " ("@ + dec_seq(index) + ")."@ + name.skip(
                last_dot(name) + 1,
            )
        } else {
            dir + name + " ("@ + dec_seq(index) + ")"@
        }
    }
}

proof fn lemma_dir_prefix_scan(s: Seq<char>, d: int)
    requires
        0 <= d <= s.len(),
        forall|k: int| d <= k < s.len() ==> !is_sep(s[k]),
        d > 0 ==> is_sep(s[d - 1]),
    ensures
        dir_prefix_len(s) == d,
    decreases s.len() - d,
{
    if d == s.len() {
        if s.len() > 0 {
            assert(is_sep(s.last()));
        }
    } else {
        assert(!is_sep(s.last()));
        let t = s.drop_last();
        assert forall|k: int| d <= k < t.len() implies !is_sep(t[k]) by {
            assert(t[k] == s[k]);
        }
        if d > 0 {
            assert(t[d - 1] == s[d - 1]);
        }
        lemma_dir_prefix_scan(t, d);
    }
}

proof fn lemma_last_dot_scan(name: Seq<char>, j: int)
    requires
        0 <= j <= name.len(),
        forall|k: int| j <= k < name.len() ==> name[k] != '.',
        j > 0 ==> name[j - 1] == '.',
    ensures
        last_dot(name) == j - 1,
    decreases name.len() - j,
{
    if j == name.len() {
        if name.len() > 0 {
            assert(name.last() == '.');
        }
    } else {
        assert(name.last() != '.');
        let t = name.drop_last();
        assert forall|k: int| j <= k < t.len() implies t[k] != '.' by {
            assert(t[k] == name[k]);
        }
        if j > 0 {
            assert(t[j - 1] == name[j - 1]);
        }
        lemma_last_dot_scan(t, j);
    }
}

/// Builds candidate number `index`, matching `spec_candidate`.
pub fn candidate_path(path: &str, index: u64) -> (r: String)
    ensures
        r@ == spec_candidate(path@, index as nat),
{
    if index == 0 {
        return path.to_owned();
    }
    let n = path.unicode_len();
    let mut d: usize = n;
    while d > 0 && !sep_char(path.get_char(d - 1))
        invariant
            d <= n,
            n == path@.len(),
            forall|k: int| d <= k < n ==> !is_sep(path@[k]),
        decreases d,
    {
        d -= 1;
    }
    proof {
        lemma_dir_prefix_scan(path@, d as int);
    }
    let dir = path.substring_char(0, d);
    let name = path.substring_char(d, n);
    proof {
        assert(dir@ =~= path@.take(d as int));
        assert(name@ =~= path@.skip(d as int));
    }
    let m = name.unicode_len();
    let mut j: usize = m;
    while j > 0 && name.get_char(j - 1) != '.'
        invariant
            j <= m,
            m == name@.len(),
            forall|k: int| j <= k < m ==> name@[k] != '.',
        decreases j,
    {
        j -= 1;
    }
    proof {
        lemma_last_dot_scan(name@, j as int);
    }
    let counter = u64_to_string(index);
    let mut r = dir.to_owned();
    if j >= 2 {
        r.append(name.substring_char(0, j - 1));
        r.append(" (");
        r.append(counter.as_str());
        r.append(").");
        r.append(name.substring_char(j, m));
        proof {
            assert(name@.subrange(0, j - 1) =~= name@.take(last_dot(name@)));
            assert(name@.subrange(j as int, m as int) =~= name@.skip(last_dot(name@) + 1));
            assert(r@ =~= spec_candidate(path@, index as nat));
        }
    } else {
        r.append(name);
        r.append(" (");
        r.append(counter.as_str());
        r.append(")");
        proof {
            assert(r@ =~= spec_candidate(path@, index as nat));
        }
    }
    r
}

/// Whether one of the taken paths equals `s`.
fn contains_string(taken: &Vec<String>, s: &str) -> (r: bool)
    ensures
        r == taken@.map_values(|t: String| t@).contains(s@),
{
    let ghost tv = taken@.map_values(|t: String| t@);
    let mut i: usize = 0;
    while i < taken.len()
        invariant
            i <= taken.len(),
            tv == taken@.map_values(|t: String| t@),
            forall|j: int| 0 <= j < i ==> tv[j] != s@,
        decreases taken.len() - i,
    {
        if str_eq(taken[i].as_str(), s) {
            proof {
                assert(tv[i as int] == s@);
            }
            return true;
        }
        i += 1;
    }
    proof {
        assert(!tv.contains(s@)) by {
            if tv.contains(s@) {
                let k = choose|k: int| 0 <= k < tv.len() && tv[k] == s@;
            }
        }
    }
    false
}

/// The first free candidate from number `i` up to the search bound, else the
/// requested path unchanged.
pub open spec fn first_free(path: Seq<char>, taken: Seq<Seq<char>>, i: nat) -> Seq<char>
    decreases 1000 - i,
{
    if i >= 1000 {
        path
    } else if !taken.contains(spec_candidate(path, i)) {
        spec_candidate(path, i)
    } else {
        first_free(path, taken, i + 1)
    }
}

/// The chosen output path: the request itself when not taken, else the first
/// free numbered candidate, else the request unchanged after a bounded
/// search.
pub open spec fn spec_unique_output_path(path: Seq<char>, taken: Seq<Seq<char>>) -> Seq<char> {
    if !taken.contains(path) {
        path
    } else {
        first_free(path, taken, 1)
    }
}

/// Chooses the output path among the candidates, matching
/// `spec_unique_output_path`; `taken` lists the paths that already exist.
pub fn unique_output_path(path: &str, taken: &Vec<String>) -> (r: String)
    ensures
        r@ == spec_unique_output_path(path@, taken@.map_values(|t: String| t@)),
{
    let ghost tv = taken@.map_values(|t: String| t@);
    if !contains_string(taken, path) {
        return path.to_owned();
    }
    let mut i: u64 = 1;
    while i < 1000
        invariant
            1 <= i <= 1000,
            tv == taken@.map_values(|t: String| t@),
            tv.contains(path@),
            first_free(path@, tv, 1) == first_free(path@, tv, i as nat),
        decreases 1000 - i,
    {
        let cand = candidate_path(path, i);
        if !contains_string(taken, cand.as_str()) {
            return cand;
        }
        i += 1;
    }
    path.to_owned()
}

} // verus!
