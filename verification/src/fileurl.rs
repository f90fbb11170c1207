//! Conversion of a filesystem path into a reference string: a `file:` URL
//! with forward slashes and spaces escaped as `%20`.
//!
//! The escaping is deliberately minimal — the goal is a clickable link for
//! typical paths, not general percent-encoding.

use vstd::prelude::*;
use vstd::string::StrSliceExecFns;
use vstd::string::StringExecFns;

verus! {

/// What one path character turns into: a backslash becomes a forward
/// slash, a space becomes `%20`, anything else stays itself.
pub open spec fn esc_char(c: char) -> Seq<char> {
    if c == '\\' {
        seq!['/']
    } else if c == ' ' {
        seq!['%', '2', '0']
    } else {
        seq![c]
    }
}

/// The path `p` with separators normalized and spaces escaped.
pub open spec fn normalize_path(p: Seq<char>) -> Seq<char>
    decreases p.len(),
{
    if p.len() == 0 {
        Seq::empty()
    } else {
        normalize_path(p.drop_last()) + esc_char(p.last())
    }
}

/// The reference string for the path `p`: the normalized path behind a
/// `file:` scheme. A path that already starts with two slashes (UNC style)
/// gets the bare scheme; any other path gets a triple slash.
pub open spec fn spec_file_url(p: Seq<char>) -> Seq<char> {
    let t = normalize_path(p);
    if t.len() >= 2 && t[0] == '/' && t[1] == '/' {
        seq!['f', 'i', 'l', 'e', ':'] + t
    } else {
        seq!['f', 'i', 'l', 'e', ':', '/', '/', '/'] + t
    }
}

/// Relies on String::push: appends one character at the end of the string.
#[verifier::external_body]
pub(crate) fn push_char(s: &mut String, c: char)
    ensures
        final(s)@ == old(s)@.push(c),
{
    s.push(c);
}

/// Converts a path, given as text, into its reference string: backslashes
/// become forward slashes, spaces become `%20`, and a `file:` scheme is
/// put in front — with a triple slash unless the normalized path already
/// starts with two slashes.
pub fn path_to_file_url(path: &str) -> (r: String)
    ensures
        r@ == spec_file_url(path@),
{
    let n = path.unicode_len();
    let mut t = String::new();
    let mut i: usize = 0;
    while i < n
        invariant
            i <= n,
            n == path@.len(),
            t@ == normalize_path(path@.take(i as int)),
        decreases n - i,
    {
        let ghost prev = t@;
        let c = path.get_char(i);
        if c == '\\' {
            push_char(&mut t, '/');
        } else if c == ' ' {
            push_char(&mut t, '%');
            push_char(&mut t, '2');
            push_char(&mut t, '0');
        } else {
            push_char(&mut t, c);
        }
        proof {
            assert(t@ =~= prev + esc_char(c));
            assert(path@.take(i + 1 as int).drop_last() =~= path@.take(i as int));
            assert(t@ == normalize_path(path@.take(i + 1 as int)));
        }
        i = i + 1;
    }
    proof {
        assert(path@.take(n as int) =~= path@);
    }

    let unc = if t.as_str().unicode_len() >= 2 {
        let c0 = t.as_str().get_char(0);
        let c1 = t.as_str().get_char(1);
        c0 == '/' && c1 == '/'
    } else {
        false
    };
    let prefix = if unc {
        "file:"
    } else {
        "file:///"
    };
    proof {
        reveal_strlit("file:");
        reveal_strlit("file:///");
        assert("file:"@ =~= seq!['f', 'i', 'l', 'e', ':']);
        assert("file:///"@ =~= seq!['f', 'i', 'l', 'e', ':', '/', '/', '/']);
    }
    let mut out = prefix.to_owned();
    out.append(t.as_str());
    proof {
        assert(out@ =~= spec_file_url(path@));
    }
    out
}

} // verus!
