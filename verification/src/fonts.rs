use vstd::prelude::*;
use vstd::string::StrSliceExecFns;
use crate::text::str_eq;

verus! {

/// The file extensions the font searcher indexes.
pub open spec fn font_extension(ext: Seq<char>) -> bool {
    ||| ext == "ttf"@
    ||| ext == "otf"@
    ||| ext == "TTF"@
    ||| ext == "OTF"@
    ||| ext == "ttc"@
    ||| ext == "otc"@
    ||| ext == "TTC"@
    ||| ext == "OTC"@
}

/// Position `d` holds the dot that starts the path's extension: it is a `.`
/// inside the last segment but not its first character, and only the
/// extension's own characters follow it.
pub open spec fn ext_starts_at(s: Seq<char>, d: int) -> bool {
    &&& 0 < d < s.len()
    &&& s[d] == '.'
    &&& s[d - 1] != '/'
    &&& forall|k: int| d < k < s.len() ==> s[k] != '.' && #[trigger] s[k] != '/'
}

/// The path ends in one of the font file extensions.
pub open spec fn has_font_extension(s: Seq<char>) -> bool {
    exists|d: int| #[trigger] ext_starts_at(s, d) && font_extension(s.subrange(d + 1, s.len() as int))
}

/// Decide whether a file found while walking a font directory is indexed:
/// exactly the paths whose extension is a font file extension.
pub fn is_font_path(path: &str) -> (r: bool)
    ensures
        r == has_font_extension(path@),
{
    let n = path.unicode_len();
    let mut i: usize = n;
    let mut stop = false;
    while i > 0 && !stop
        invariant
            i <= n,
            n == path@.len(),
            forall|k: int| i <= k < n ==> path@[k] != '.' && #[trigger] path@[k] != '/',
            stop ==> i > 0 && (path@[i - 1] == '.' || path@[i - 1] == '/'),
        decreases i, (if stop {
            0int
        } else {
            1int
        }),
    {
        let c = path.get_char(i - 1);
        if c == '.' || c == '/' {
            stop = true;
        } else {
            i -= 1;
        }
    }
    if i == 0 {
        proof {
            assert forall|d: int| !(ext_starts_at(path@, d) && font_extension(
                path@.subrange(d + 1, path@.len() as int),
            )) by {
                if 0 < d < path@.len() && path@[d] == '.' {
                    assert(path@[d] != '.' && path@[d] != '/');
                }
            }
        }
        return false;
    }
    let q = i - 1;
    if path.get_char(q) == '/' {
        proof {
            assert forall|d: int| !(ext_starts_at(path@, d) && font_extension(
                path@.subrange(d + 1, path@.len() as int),
            )) by {
                if ext_starts_at(path@, d) {
                    if d < q {
                        assert(path@[q as int] != '/');
                    } else if d > q {
                        assert(path@[d] != '.' && path@[d] != '/');
                    }
                }
            }
        }
        return false;
    }
    // path[q] == '.': the only candidate dot.
    if q == 0 || path.get_char(q - 1) == '/' {
        proof {
            assert forall|d: int| !(ext_starts_at(path@, d) && font_extension(
                path@.subrange(d + 1, path@.len() as int),
            )) by {
                if ext_starts_at(path@, d) {
                    if d < q {
                        assert(path@[q as int] != '.');
                    } else if d > q {
                        assert(path@[d] != '.' && path@[d] != '/');
                    }
                }
            }
        }
        return false;
    }
    let ext = path.substring_char(q + 1, n);
    let found = str_eq(ext, "ttf") || str_eq(ext, "otf") || str_eq(ext, "TTF") || str_eq(
        ext,
        "OTF",
    ) || str_eq(ext, "ttc") || str_eq(ext, "otc") || str_eq(ext, "TTC") || str_eq(ext, "OTC");
    proof {
        assert(ext_starts_at(path@, q as int));
        if found {
            assert(has_font_extension(path@));
        } else {
            assert forall|d: int| !(ext_starts_at(path@, d) && font_extension(
                path@.subrange(d + 1, path@.len() as int),
            )) by {
                if ext_starts_at(path@, d) {
                    if d < q {
                        assert(path@[q as int] != '.');
                    } else if d > q {
                        assert(path@[d] != '.' && path@[d] != '/');
                    }
                }
            }
        }
    }
    found
}

} // verus!
