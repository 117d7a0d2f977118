//! Escaping of text-overlay labels for the transcoder's filter-graph syntax,
//! and the two overlay filters (band plus centered text) built for a label.

use vstd::prelude::*;
use crate::text::trim_spec;
use crate::text::trim_str;

verus! {

/// The characters the filter-graph syntax treats specially inside a value.
pub open spec fn drawtext_sensitive(c: char) -> bool {
    c == '\\' || c == ':' || c == '%' || c == '\''
}

/// The escaped form of one character.
pub open spec fn drawtext_escape_char(c: char) -> Seq<char> {
    if drawtext_sensitive(c) {
        seq!['\\', c]
    } else {
        seq![c]
    }
}

/// Each character escaped in turn; a backslash is doubled, and the other
/// sensitive characters gain a single backslash, so no escape is reprocessed.
pub open spec fn spec_escape_drawtext(s: Seq<char>) -> Seq<char>
    decreases s.len(),
{
    if s.len() == 0 {
        Seq::empty()
    } else {
        drawtext_escape_char(s[0]) + spec_escape_drawtext(s.drop_first())
    }
}

proof fn lemma_escape_snoc(s: Seq<char>, c: char)
    ensures
        spec_escape_drawtext(s.push(c)) == spec_escape_drawtext(s) + drawtext_escape_char(c),
    decreases s.len(),
{
    let e = s.push(c);
    assert(e.len() == s.len() + 1);
    assert(e[0] == if s.len() == 0 { c } else { s[0] });
    if s.len() == 0 {
        assert(e.drop_first() =~= Seq::<char>::empty());
        assert(spec_escape_drawtext(e) == drawtext_escape_char(c) + spec_escape_drawtext(
            e.drop_first(),
        ));
        assert(spec_escape_drawtext(e) =~= spec_escape_drawtext(s) + drawtext_escape_char(c));
    } else {
        assert(e.drop_first() =~= s.drop_first().push(c));
        lemma_escape_snoc(s.drop_first(), c);
        assert(spec_escape_drawtext(e) == drawtext_escape_char(s[0]) + spec_escape_drawtext(
            e.drop_first(),
        ));
        assert(spec_escape_drawtext(e) =~= spec_escape_drawtext(s) + drawtext_escape_char(c));
    }
}

/// Escapes a label for embedding in a filter-graph string.
pub fn escape_drawtext(value: &str) -> (r: String)
    ensures
        r@ == spec_escape_drawtext(value@),
{
    let n = value.unicode_len();
    let mut r = String::new();
    let mut i: usize = 0;
    while i < n
        invariant
            i <= n,
            n == value@.len(),
            r@ == spec_escape_drawtext(value@.take(i as int)),
        decreases n - i,
    {
        let c = value.get_char(i);
        if c == '\\' || c == ':' || c == '%' || c == '\'' {
            r.append("\\");
            proof {
                reveal_strlit("\\");
            }
        }
        let piece = value.substring_char(i, i + 1);
        r.append(piece);
        proof {
            assert(piece@ =~= seq![value@[i as int]]);
            assert(value@.take(i + 1) =~= value@.take(i as int).push(value@[i as int]));
            lemma_escape_snoc(value@.take(i as int), value@[i as int]);
            assert(r@ =~= spec_escape_drawtext(value@.take(i + 1)));
        }
        i += 1;
    }
    proof {
        assert(value@.take(n as int) =~= value@);
    }
    r
}

/// The inverse reading of an escaped string: a backslash must be followed by
/// a sensitive character, which it stands for; a bare sensitive character is
/// ill-formed.
pub open spec fn drawtext_unescape(s: Seq<char>) -> Option<Seq<char>>
    decreases s.len(),
{
    if s.len() == 0 {
        Some(Seq::empty())
    } else if s[0] == '\\' {
        if s.len() >= 2 && drawtext_sensitive(s[1]) {
            match drawtext_unescape(s.skip(2)) {
                Some(t) => Some(seq![s[1]] + t),
                None => None,
            }
        } else {
            None
        }
    } else if drawtext_sensitive(s[0]) {
        None
    } else {
        match drawtext_unescape(s.skip(1)) {
            Some(t) => Some(seq![s[0]] + t),
            None => None,
        }
    }
}

/// Escaping neutralizes every sensitive character: the escaped form is
/// well-formed under `drawtext_unescape` and decodes back to the original
/// label, so embedding it in a filter graph is unambiguous.
pub proof fn lemma_escape_drawtext_round_trip(s: Seq<char>)
    ensures
        drawtext_unescape(spec_escape_drawtext(s)) == Some(s),
    decreases s.len(),
{
    if s.len() == 0 {
    } else {
        let e = spec_escape_drawtext(s);
        let head = drawtext_escape_char(s[0]);
        let rest = spec_escape_drawtext(s.drop_first());
        lemma_escape_drawtext_round_trip(s.drop_first());
        if drawtext_sensitive(s[0]) {
            assert(e[0] == '\\');
            assert(e[1] == s[0]);
            assert(e.skip(2) =~= rest);
            assert(seq![s[0]] + s.drop_first() =~= s);
        } else {
            assert(e[0] == s[0]);
            assert(e[0] != '\\');
            assert(e.skip(1) =~= rest);
            assert(seq![s[0]] + s.drop_first() =~= s);
        }
    }
}

/// The translucent band drawn across the lower part of the frame.
pub open spec fn drawbox_filter() -> Seq<char> {
    "drawbox=x=0:y=ih*0.86:w=iw:h=ih*0.14:color=black@0.45:t=fill"@
}

/// The centered text-draw filter for an escaped label.
pub open spec fn drawtext_filter(label: Seq<char>) -> Seq<char> {
    "drawtext=font='Segoe UI':text='"@ + spec_escape_drawtext(label)
        + "':fontcolor=white:fontsize=h*0.055:x=(w-text_w)/2:y=h-(text_h*1.6)"@
}

/// The overlay filters for a label: none for a blank label, else the band
/// and the text draw, with the trimmed label escaped.
pub open spec fn spec_label_filters(label: Seq<char>) -> Seq<Seq<char>> {
    if trim_spec(label).len() == 0 {
        Seq::empty()
    } else {
        seq![drawbox_filter(), drawtext_filter(trim_spec(label))]
    }
}

/// Builds the overlay filters for a label, matching `spec_label_filters`.
pub fn label_filters(label: &str) -> (r: Vec<String>)
    ensures
        r@.map_values(|p: String| p@) == spec_label_filters(label@),
{
    let trimmed = trim_str(label);
    if trimmed.unicode_len() == 0 {
        let r: Vec<String> = Vec::new();
        proof {
            assert(r@.map_values(|p: String| p@) =~= spec_label_filters(label@));
        }
        return r;
    }
    let text = escape_drawtext(trimmed);
    let mut drawtext = ("drawtext=font='Segoe UI':text='").to_owned();
    drawtext.append(text.as_str());
    drawtext.append("':fontcolor=white:fontsize=h*0.055:x=(w-text_w)/2:y=h-(text_h*1.6)");
    let mut r: Vec<String> = Vec::new();
    r.push(("drawbox=x=0:y=ih*0.86:w=iw:h=ih*0.14:color=black@0.45:t=fill").to_owned());
    r.push(drawtext);
    proof {
        assert(r@.map_values(|p: String| p@) =~= spec_label_filters(label@));
    }
    r
}

} // verus!
