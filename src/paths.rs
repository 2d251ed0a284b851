//! Which files are indexed, and the URL under which each is published.
use vstd::prelude::*;
use vstd::string::*;

verus! {

/// The suffix that marks an indexable file.
pub open spec fn html_suffix() -> Seq<char> {
    seq!['.', 'h', 't', 'm', 'l']
}

/// A path names an HTML document when its file name ends in `.html` and
/// has at least one character before that suffix (so `.html` alone is a
/// hidden file with no extension).
pub open spec fn has_html_extension(p: Seq<char>) -> bool {
    &&& p.len() > 5
    &&& p.subrange(p.len() - 5, p.len() as int) == html_suffix()
    &&& p[p.len() - 6] != '/'
}

/// An entry is indexed when it is a regular file with the HTML extension.
pub open spec fn indexable(p: Seq<char>, is_file: bool) -> bool {
    is_file && has_html_extension(p)
}

/// The path relative to the indexed root, with one leading `./` removed.
pub open spec fn relative_part(p: Seq<char>) -> Seq<char> {
    if p.len() >= 2 && p[0] == '.' && p[1] == '/' {
        p.skip(2)
    } else {
        p
    }
}

/// `base/relative_path`, before any URL normalisation.
pub open spec fn composed_url(base: Seq<char>, p: Seq<char>) -> Seq<char> {
    base + seq!['/'] + relative_part(p)
}

/// Whether the traversal entry at `path` is handed to extraction.
pub fn is_indexable(path: &str, is_file: bool) -> (r: bool)
    ensures
        r == indexable(path@, is_file),
{
    if !is_file {
        return false;
    }
    let n = path.unicode_len();
    if n <= 5 {
        return false;
    }
    let suffix_ok = path.get_char(n - 5) == '.' && path.get_char(n - 4) == 'h'
        && path.get_char(n - 3) == 't' && path.get_char(n - 2) == 'm'
        && path.get_char(n - 1) == 'l';
    proof {
        let s = path@.subrange(n - 5, n as int);
        if suffix_ok {
            assert(s =~= html_suffix());
        } else {
            assert(s != html_suffix()) by {
                if s == html_suffix() {
                    assert(s[0] == '.' && s[1] == 'h' && s[2] == 't' && s[3] == 'm' && s[4] == 'l');
                }
            }
        }
    }
    suffix_ok && path.get_char(n - 6) != '/'
}

/// Joins `base` and the entry's path relative to the root with a `/`.
pub fn compose_url(base: &str, path: &str) -> (r: String)
    ensures
        r@ == composed_url(base@, path@),
{
    let mut out = String::from_str(base);
    out.append("/");
    let n = path.unicode_len();
    let rest = if n >= 2 && path.get_char(0) == '.' && path.get_char(1) == '/' {
        path.substring_char(2, n)
    } else {
        path
    };
    out.append(rest);
    proof {
        reveal_strlit("/");
        assert(rest@ == relative_part(path@));
        assert(out@ =~= composed_url(base@, path@));
    }
    out
}

} // verus!
