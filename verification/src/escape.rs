//! Quoting of command arguments for the remote POSIX shell, stated exactly
//! and performed by the `shell-escape` crate.
use vstd::prelude::*;

verus! {

/// Whether a character passes shell quoting unchanged: the whitelist of
/// `shell_escape::unix` — ASCII letters, digits, and `- _ = / , . +`.
pub open spec fn shell_safe_char(c: char) -> bool {
    ||| (97 <= c as u32 && c as u32 <= 122)
    ||| (65 <= c as u32 && c as u32 <= 90)
    ||| (48 <= c as u32 && c as u32 <= 57)
    ||| c == '-'
    ||| c == '_'
    ||| c == '='
    ||| c == '/'
    ||| c == ','
    ||| c == '.'
    ||| c == '+'
}

/// Whether a string passes quoting unchanged: non-empty and made of
/// whitelisted characters only.
pub open spec fn all_shell_safe(s: Seq<char>) -> bool {
    s.len() > 0 && forall|i: int| 0 <= i < s.len() ==> shell_safe_char(#[trigger] s[i])
}

/// How one character appears inside the single-quoted form: a quote or bang
/// closes the quoting, stands backslash-escaped, and reopens it.
pub open spec fn escaped_char(c: char) -> Seq<char> {
    if c == '\'' || c == '!' {
        seq!['\'', '\\', c, '\'']
    } else {
        seq![c]
    }
}

/// The characters of a string as they appear inside the single-quoted form.
pub open spec fn escaped_body(s: Seq<char>) -> Seq<char>
    decreases s.len(),
{
    if s.len() == 0 {
        Seq::empty()
    } else {
        escaped_body(s.drop_last()) + escaped_char(s.last())
    }
}

/// What `shell_escape::unix::escape` returns: a non-empty whitelisted string
/// unchanged; anything else — the empty string included — wrapped in single
/// quotes, with every quote and bang escaped.
pub open spec fn shell_escaped(s: Seq<char>) -> Seq<char> {
    if all_shell_safe(s) {
        s
    } else {
        seq!['\''] + escaped_body(s) + seq!['\'']
    }
}

/// Relies on shell_escape::unix::escape: POSIX shell quoting, exactly as
/// `shell_escaped` states it.
#[verifier::external_body]
pub fn escape_arg(s: &str) -> (r: String)
    ensures
        r@ == shell_escaped(s@),
{
    shell_escape::unix::escape(std::borrow::Cow::Borrowed(s)).into_owned()
}

} // verus!
