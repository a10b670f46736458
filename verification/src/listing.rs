//! Parsing of the `|`-separated records the tmux listings print: one line
//! per session or window, fields in a fixed order, absent or malformed
//! fields falling back to their defaults.
use crate::digits::spec_parse_u32;
use crate::digits::parse_u32;
use crate::textutil::str_eq;
use crate::textutil::trim_str;
use crate::textutil::trimmed_of;
use crate::tmuxcmd::TmuxSession;
use crate::tmuxcmd::TmuxWindow;
use vstd::prelude::*;

verus! {

/// The fields of a record line, split at every `'|'`: always at least one
/// field, the delimiters discarded.
pub open spec fn split_fields_of(s: Seq<char>) -> Seq<Seq<char>>
    decreases s.len(),
{
    if s.len() == 0 {
        seq![Seq::<char>::empty()]
    } else if s.last() == '|' {
        split_fields_of(s.drop_last()).push(Seq::empty())
    } else {
        let f = split_fields_of(s.drop_last());
        f.update(f.len() - 1, f.last().push(s.last()))
    }
}

/// A split always yields at least one field.
pub proof fn lemma_split_fields_nonempty(s: Seq<char>)
    ensures
        split_fields_of(s).len() > 0,
    decreases s.len(),
{
    if s.len() > 0 {
        lemma_split_fields_nonempty(s.drop_last());
    }
}

/// Split a record line at every `'|'`.
pub fn split_fields(s: &str) -> (fields: Vec<String>)
    ensures
        fields.deep_view() == split_fields_of(s@),
{
    let n: usize = s.unicode_len();
    let mut fields: Vec<String> = Vec::new();
    let mut start: usize = 0;
    let mut i: usize = 0;
    proof {
        assert(split_fields_of(s@.take(0)) =~= seq![Seq::<char>::empty()]);
        assert(s@.subrange(0, 0) =~= Seq::<char>::empty());
        assert(fields.deep_view() =~= Seq::<Seq<char>>::empty());
        assert(fields.deep_view().push(s@.subrange(0, 0)) =~= seq![Seq::<char>::empty()]);
    }
    while i < n
        invariant
            0 <= start <= i <= n,
            n == s@.len(),
            split_fields_of(s@.take(i as int)) == fields.deep_view().push(
                s@.subrange(start as int, i as int),
            ),
        decreases n - i,
    {
        let c = s.get_char(i);
        proof {
            assert(s@.take(i as int + 1).drop_last() =~= s@.take(i as int));
            assert(s@.take(i as int + 1).last() == c);
            lemma_split_fields_nonempty(s@.take(i as int));
        }
        if c == '|' {
            let field = s.substring_char(start, i).to_owned();
            fields.push(field);
            start = i + 1;
            proof {
                assert(s@.subrange(i as int + 1, i as int + 1) =~= Seq::<char>::empty());
                assert(split_fields_of(s@.take(i as int + 1)) =~= fields.deep_view().push(
                    s@.subrange(start as int, i as int + 1),
                ));
            }
        } else {
            proof {
                assert(s@.subrange(start as int, i as int + 1) =~= s@.subrange(
                    start as int,
                    i as int,
                ).push(c));
                assert(split_fields_of(s@.take(i as int + 1)) =~= fields.deep_view().push(
                    s@.subrange(start as int, i as int + 1),
                ));
            }
        }
        i = i + 1;
    }
    let last = s.substring_char(start, n).to_owned();
    fields.push(last);
    proof {
        assert(s@.take(n as int) =~= s@);
        assert(fields.deep_view() =~= split_fields_of(s@));
    }
    fields
}

/// The characters of a field with every trailing carriage return and newline
/// removed.
pub open spec fn strip_trailing_crlf(s: Seq<char>) -> Seq<char>
    decreases s.len(),
{
    if s.len() > 0 && (s.last() == '\r' || s.last() == '\n') {
        strip_trailing_crlf(s.drop_last())
    } else {
        s
    }
}

fn strip_crlf_end(s: &str) -> (r: String)
    ensures
        r@ == strip_trailing_crlf(s@),
{
    let mut end: usize = s.unicode_len();
    let mut stop = false;
    proof {
        assert(s@.take(end as int) =~= s@);
    }
    while !stop
        invariant
            0 <= end <= s@.len(),
            strip_trailing_crlf(s@) == strip_trailing_crlf(s@.take(end as int)),
            stop ==> strip_trailing_crlf(s@.take(end as int)) == s@.take(end as int),
        decreases end + (if stop {
            0int
        } else {
            1int
        }),
    {
        if end == 0 {
            stop = true;
        } else {
            let c = s.get_char(end - 1);
            proof {
                assert(s@.take(end as int).drop_last() =~= s@.take(end as int - 1));
                assert(s@.take(end as int).last() == c);
            }
            if c == '\r' || c == '\n' {
                end = end - 1;
            } else {
                stop = true;
            }
        }
    }
    let r = s.substring_char(0, end).to_owned();
    proof {
        assert(s@.subrange(0, end as int) =~= s@.take(end as int));
    }
    r
}

/// The first position at or after `i` where `p` occurs in `s`.
pub open spec fn first_marker_from(s: Seq<char>, p: Seq<char>, i: int) -> Option<int>
    decreases s.len() + 1 - i,
{
    if i < 0 || i + p.len() > s.len() {
        None
    } else if s.subrange(i, i + p.len()) == p {
        Some(i)
    } else {
        first_marker_from(s, p, i + 1)
    }
}

/// The first position where `p` occurs in `s`.
pub open spec fn first_marker(s: Seq<char>, p: Seq<char>) -> Option<int> {
    first_marker_from(s, p, 0)
}

fn marker_matches_at(s: &str, p: &str, i: usize) -> (r: bool)
    requires
        i + p@.len() <= s@.len() <= usize::MAX,
    ensures
        r == (s@.subrange(i as int, i as int + p@.len() as int) == p@),
{
    let m: usize = p.unicode_len();
    let mut j: usize = 0;
    while j < m
        invariant
            0 <= j <= m,
            m == p@.len(),
            i + m <= s@.len() <= usize::MAX,
            forall|t: int| 0 <= t < j ==> s@[i + t] == p@[t],
        decreases m - j,
    {
        if s.get_char(i + j) != p.get_char(j) {
            proof {
                assert(s@.subrange(i as int, i as int + p@.len() as int)[j as int] != p@[j as int]);
            }
            return false;
        }
        j = j + 1;
    }
    proof {
        assert(s@.subrange(i as int, i as int + p@.len() as int) =~= p@);
    }
    true
}

/// Split a text at the first occurrence of a marker: everything before it,
/// and everything after it, the marker itself discarded; nothing when the
/// marker does not occur.
pub fn split_once_at(s: &str, p: &str) -> (r: Option<(String, String)>)
    ensures
        first_marker(s@, p@) matches Some(i) ==> (r matches Some(parts) && parts.0@ == s@.take(i)
            && parts.1@ == s@.skip(i + p@.len())),
        first_marker(s@, p@) is None ==> r is None,
{
    let n: usize = s.unicode_len();
    let m: usize = p.unicode_len();
    if m > n {
        return None;
    }
    let mut i: usize = 0;
    while i <= n - m
        invariant
            0 <= i,
            i + m <= n + 1,
            m <= n,
            n == s@.len(),
            m == p@.len(),
            first_marker(s@, p@) == first_marker_from(s@, p@, i as int),
        decreases n + 1 - i,
    {
        if marker_matches_at(s, p, i) {
            let before = s.substring_char(0, i).to_owned();
            let after = s.substring_char(i + m, n).to_owned();
            proof {
                assert(s@.subrange(0, i as int) =~= s@.take(i as int));
                assert(s@.subrange(i as int + m as int, n as int) =~= s@.skip(
                    i as int + p@.len() as int,
                ));
            }
            return Some((before, after));
        }
        proof {
            assert(first_marker_from(s@, p@, i as int) == first_marker_from(s@, p@, i as int + 1));
        }
        if i == n - m {
            return None;
        }
        i = i + 1;
    }
    None
}

/// The numeric value of a field after trimming, the default when the field
/// is absent or does not parse.
pub open spec fn num_field(fs: Seq<Seq<char>>, i: int, dflt: u32) -> u32 {
    if i < fs.len() {
        match spec_parse_u32(trimmed_of(fs[i])) {
            Some(n) => n,
            None => dflt,
        }
    } else {
        dflt
    }
}

/// A field after trimming, empty when absent.
pub open spec fn trim_field(fs: Seq<Seq<char>>, i: int) -> Seq<char> {
    if i < fs.len() {
        trimmed_of(fs[i])
    } else {
        Seq::empty()
    }
}

/// Whether a field, after trimming, is the flag `"1"`.
pub open spec fn flag_field(fs: Seq<Seq<char>>, i: int) -> bool {
    i < fs.len() && trimmed_of(fs[i]) == "1"@
}

/// Parse one line of the window listing,
/// `index|id|name|active|panes`: a malformed index falls back to 0, a
/// malformed pane count to 1, the name keeps everything but trailing line
/// ends.
pub fn parse_window_line(line: &str) -> (w: TmuxWindow)
    ensures
        ({
            let fs = split_fields_of(line@);
            &&& w.index == num_field(fs, 0, 0)
            &&& w.id@ == trim_field(fs, 1)
            &&& w.name@ == (if 2 < fs.len() {
                strip_trailing_crlf(fs[2])
            } else {
                Seq::<char>::empty()
            })
            &&& w.active == flag_field(fs, 3)
            &&& w.panes == num_field(fs, 4, 1)
        }),
{
    let fields = split_fields(line);
    let index: u32 = if fields.len() > 0 {
        match parse_u32(trim_str(fields[0].as_str())) {
            Some(n) => n,
            None => 0,
        }
    } else {
        0
    };
    let id: String = if fields.len() > 1 {
        trim_str(fields[1].as_str()).to_owned()
    } else {
        String::new()
    };
    let name: String = if fields.len() > 2 {
        strip_crlf_end(fields[2].as_str())
    } else {
        String::new()
    };
    let active: bool = if fields.len() > 3 {
        str_eq(trim_str(fields[3].as_str()), "1")
    } else {
        false
    };
    let panes: u32 = if fields.len() > 4 {
        match parse_u32(trim_str(fields[4].as_str())) {
            Some(n) => n,
            None => 1,
        }
    } else {
        1
    };
    proof {
        lemma_split_fields_nonempty(line@);
        assert(fields.deep_view()[0] == fields@[0]@);
    }
    TmuxWindow { index, id, name, active, panes }
}

/// What a window-name probe's answer replaces a placeholder with: the
/// probe's output without line ends and surrounding whitespace, when the
/// probe succeeded and said something.
pub open spec fn hydrated_name_of(code: i32, out: Seq<char>) -> Option<Seq<char>> {
    let cleaned = trimmed_of(strip_trailing_crlf(out));
    if code == 0 && cleaned.len() > 0 {
        Some(cleaned)
    } else {
        None
    }
}

/// Decide what a window-name probe's answer makes of a placeholder name:
/// the cleaned reported name, or nothing when the probe failed or reported
/// none.
pub fn hydrated_name(code: i32, out: &str) -> (r: Option<String>)
    ensures
        hydrated_name_of(code, out@) matches Some(v) ==> (r matches Some(n) && n@ == v),
        hydrated_name_of(code, out@) is None ==> r is None,
{
    if code != 0 {
        return None;
    }
    let stripped = strip_crlf_end(out);
    let cleaned = trim_str(stripped.as_str());
    if cleaned.unicode_len() == 0 {
        None
    } else {
        Some(cleaned.to_owned())
    }
}

/// Parse one line of the session listing, `name|windows|attached`: the name
/// is taken as it is, a malformed window count falls back to 0, and the
/// session counts as attached exactly when the flag field is `"1"`.
pub fn parse_session_line(line: &str) -> (s: TmuxSession)
    ensures
        ({
            let fs = split_fields_of(line@);
            &&& s.name@ == fs[0]
            &&& s.windows == (if 1 < fs.len() {
                match spec_parse_u32(fs[1]) {
                    Some(n) => n,
                    None => 0u32,
                }
            } else {
                0u32
            })
            &&& s.attached == (2 < fs.len() && fs[2] == "1"@)
        }),
{
    let fields = split_fields(line);
    proof {
        lemma_split_fields_nonempty(line@);
    }
    let name: String = fields[0].clone();
    let windows: u32 = if fields.len() > 1 {
        match parse_u32(fields[1].as_str()) {
            Some(n) => n,
            None => 0,
        }
    } else {
        0
    };
    let attached: bool = if fields.len() > 2 {
        str_eq(fields[2].as_str(), "1")
    } else {
        false
    };
    TmuxSession { name, windows, attached }
}

} // verus!
