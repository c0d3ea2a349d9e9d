//! Resolution of the single byte that separates fields in a delimited text
//! file, from an optional user override and the file's extension.

use vstd::prelude::*;

verus! {

/// The comma byte, the universal fallback delimiter.
pub const COMMA: u8 = 44;

/// The tab byte, chosen for `.tsv` files.
pub const TAB: u8 = 9;

/// The delimiter encoded by a user-supplied override string: the first
/// character's byte when the string has one and it fits in a byte, the
/// comma byte otherwise.
pub open spec fn spec_str_to_delim(s: Seq<char>) -> u8 {
    if s.len() == 0 {
        COMMA
    } else if s[0] as u32 <= 255 {
        (s[0] as u32) as u8
    } else {
        COMMA
    }
}

/// The extension of the path's final `/`-separated component: what follows
/// the component's last `.`, provided that `.` is not the component's
/// first character. A name such as `.bashrc` therefore has no extension.
pub open spec fn spec_extension(p: Seq<char>) -> Option<Seq<char>> {
    let sep: int = match p.index_of_last('/') {
        Some(i) => i,
        None => -1,
    };
    match p.index_of_last('.') {
        Some(d) => {
            if d > sep + 1 {
                Some(p.subrange(d + 1, p.len() as int))
            } else {
                None
            }
        },
        None => None,
    }
}

/// The delimiter inferred from a path's extension: tab for `tsv`, comma
/// for `csv` and, the fallback being total, for every other extension and
/// for a path without one.
pub open spec fn spec_delim_for_path(p: Seq<char>) -> u8 {
    match spec_extension(p) {
        Some(e) => {
            if e == "csv"@ {
                COMMA
            } else if e == "tsv"@ {
                TAB
            } else {
                COMMA
            }
        },
        None => COMMA,
    }
}

/// The resolved delimiter: a non-comma user override always wins; the
/// extension decides otherwise.
pub open spec fn spec_get_delimeter(path: Seq<char>, custom: Seq<char>) -> u8 {
    if spec_str_to_delim(custom) != COMMA {
        spec_str_to_delim(custom)
    } else {
        spec_delim_for_path(path)
    }
}

/// Interprets a custom-delimiter string as a single byte: the first
/// character when it fits in a byte, otherwise the comma fallback.
pub fn str_to_delim(s: &str) -> (d: u8)
    ensures
        d == spec_str_to_delim(s@),
{
    if s.unicode_len() == 0 {
        return COMMA;
    }
    let c = s.get_char(0);
    let code = c as u32;
    if code <= 255 {
        code as u8
    } else {
        COMMA
    }
}

/// The index of the last occurrence of `c` among the characters of `s`,
/// or `None` when `c` does not occur.
fn last_position(s: &str, c: char) -> (r: Option<usize>)
    ensures
        match r {
            Some(i) => i < s@.len() && s@.index_of_last(c) == Some(i as int),
            None => s@.index_of_last(c) is None,
        },
{
    let n = s.unicode_len();
    let mut i = n;
    while i > 0
        invariant
            i <= n,
            n == s@.len(),
            forall|j: int| i <= j < n ==> s@[j] != c,
        decreases i,
    {
        let here = s.get_char(i - 1);
        if here == c {
            proof {
                s@.index_of_last_ensures(c);
                assert(s@[i - 1] == c);
                assert(s@.contains(c));
                let w = s@.index_of_last(c).unwrap();
                assert(s@[w] == c);
                assert(w == i - 1) by {
                    if w > i - 1 {
                        assert(s@[w] != c);
                    }
                    if w < i - 1 {
                        assert(s@[i - 1] != c);
                    }
                }
            }
            return Some(i - 1);
        }
        i = i - 1;
    }
    proof {
        s@.index_of_last_ensures(c);
        if s@.index_of_last(c) is Some {
            let w = s@.index_of_last(c).unwrap();
            assert(s@[w] == c);
            assert(s@[w] != c);
        }
    }
    None
}

/// Resolves the field delimiter for `path` under the override
/// `custom_delim`: a non-comma override byte wins unconditionally, a
/// `tsv` extension gives tab, and everything else gives comma.
pub fn get_delimeter(path: &str, custom_delim: &str) -> (d: u8)
    ensures
        d == spec_get_delimeter(path@, custom_delim@),
{
    let cd = str_to_delim(custom_delim);
    if cd != COMMA {
        return cd;
    }
    let n = path.unicode_len();
    let dot = last_position(path, '.');
    let slash = last_position(path, '/');
    let dpos: usize = match dot {
        Some(i) => i,
        None => {
            return COMMA;
        },
    };
    let has_ext = match slash {
        Some(s) => dpos > s + 1,
        None => dpos > 0,
    };
    if !has_ext {
        return COMMA;
    }
    proof {
        reveal_strlit("csv");
        reveal_strlit("tsv");
    }
    let ghost ext = path@.subrange(dpos + 1, n as int);
    proof {
        assert(spec_extension(path@) == Some(ext));
    }
    let is_tsv = n - dpos == 4 && path.get_char(dpos + 1) == 't' && path.get_char(dpos + 2) == 's'
        && path.get_char(dpos + 3) == 'v';
    if is_tsv {
        proof {
            assert(ext =~= "tsv"@);
            assert("csv"@[0] != "tsv"@[0]);
        }
        TAB
    } else {
        proof {
            if ext == "tsv"@ {
                assert(ext.len() == 3);
                assert(n - dpos == 4);
                assert(path@[dpos + 1] == 't') by {
                    assert(ext[0] == 't');
                }
                assert(path@[dpos + 2] == 's') by {
                    assert(ext[1] == 's');
                }
                assert(path@[dpos + 3] == 'v') by {
                    assert(ext[2] == 'v');
                }
            }
            assert(spec_delim_for_path(path@) == COMMA);
        }
        COMMA
    }
}

/// For any path that ends in `.csv`, an override that encodes the comma
/// byte (empty, or starting with a comma) leaves the resolver at the
/// comma byte.
pub proof fn lemma_csv_extension_gives_comma(path: Seq<char>, custom: Seq<char>)
    requires
        path.len() >= 4,
        path.subrange(path.len() - 4, path.len() as int) == ".csv"@,
        custom.len() == 0 || custom[0] == ',',
    ensures
        spec_get_delimeter(path, custom) == COMMA,
{
    reveal_strlit(".csv");
    reveal_strlit("csv");
    reveal_strlit("tsv");
    let n = path.len() as int;
    assert(path[n - 4] == '.') by {
        assert(path.subrange(n - 4, n)[0] == '.');
    }
    assert(path[n - 3] == 'c') by {
        assert(path.subrange(n - 4, n)[1] == 'c');
    }
    assert(path[n - 2] == 's') by {
        assert(path.subrange(n - 4, n)[2] == 's');
    }
    assert(path[n - 1] == 'v') by {
        assert(path.subrange(n - 4, n)[3] == 'v');
    }
    assert(spec_str_to_delim(custom) == COMMA);
    path.index_of_last_ensures('.');
    assert(path.contains('.'));
    let w = path.index_of_last('.').unwrap();
    assert(path[w] == '.');
    assert(w == n - 4) by {
        if w < n - 4 {
            assert(path[n - 4] != '.');
        }
    }
    path.index_of_last_ensures('/');
    match path.index_of_last('/') {
        Some(s) => {
            if n - 4 > s + 1 {
                assert(path.subrange(n - 3, n) =~= "csv"@);
            }
        },
        None => {
            if n - 4 > 0 {
                assert(path.subrange(n - 3, n) =~= "csv"@);
            }
        },
    }
}

/// For any path whose final component genuinely carries the extension
/// `tsv` (the dot is not the component's first character), an override
/// that encodes the comma byte resolves to the tab byte. A hidden-file
/// name such as `/.tsv` has no extension and falls back to comma instead.
pub proof fn lemma_tsv_extension_gives_tab(path: Seq<char>, custom: Seq<char>)
    requires
        path.len() >= 5,
        path.subrange(path.len() - 4, path.len() as int) == ".tsv"@,
        path[path.len() - 5] != '/',
        custom.len() == 0 || custom[0] == ',',
    ensures
        spec_get_delimeter(path, custom) == TAB,
{
    reveal_strlit(".tsv");
    reveal_strlit("csv");
    reveal_strlit("tsv");
    let n = path.len() as int;
    assert(path[n - 4] == '.') by {
        assert(path.subrange(n - 4, n)[0] == '.');
    }
    assert(path[n - 3] == 't') by {
        assert(path.subrange(n - 4, n)[1] == 't');
    }
    assert(path[n - 2] == 's') by {
        assert(path.subrange(n - 4, n)[2] == 's');
    }
    assert(path[n - 1] == 'v') by {
        assert(path.subrange(n - 4, n)[3] == 'v');
    }
    assert(spec_str_to_delim(custom) == COMMA);
    path.index_of_last_ensures('.');
    assert(path.contains('.'));
    let w = path.index_of_last('.').unwrap();
    assert(path[w] == '.');
    assert(w == n - 4) by {
        if w < n - 4 {
            assert(path[n - 4] != '.');
        }
    }
    let ghost ext = path.subrange(n - 3, n);
    assert(ext =~= "tsv"@);
    assert(ext != "csv"@) by {
        assert(ext[0] == 't');
        assert("csv"@[0] == 'c');
    }
    path.index_of_last_ensures('/');
    match path.index_of_last('/') {
        Some(s) => {
            assert(path[s] == '/');
            assert(s <= n - 6) by {
                assert(path[n - 5] != '/');
            }
        },
        None => {
        },
    }
    assert(spec_delim_for_path(path) == TAB);
}

/// A non-empty override whose first character is not a comma and fits in
/// one byte wins unconditionally, whatever the path says. An override
/// whose first character does not fit in a byte encodes no byte at all
/// and falls back to the extension instead.
pub proof fn lemma_custom_override_wins(path: Seq<char>, custom: Seq<char>)
    requires
        custom.len() > 0,
        custom[0] != ',',
        custom[0] as u32 <= 255,
    ensures
        spec_get_delimeter(path, custom) == (custom[0] as u32) as u8,
{
    assert(',' as u32 == 44);
    assert(custom[0] as u32 != 44) by {
        if custom[0] as u32 == 44 {
            vstd::utf8::char_u32_cast(custom[0], 44u32);
            vstd::utf8::char_u32_cast(',', 44u32);
            assert(custom[0] == ',');
        }
    }
}

} // verus!
