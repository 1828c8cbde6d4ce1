//! Display names of file paths: the file stem, as `std::path::Path` defines it
//! for Unix paths.
//!
//! A path's file name is its last component that is a plain name: segments
//! between `/` that are empty or `.` are not components, and a final `..`
//! means there is no file name. The stem is the file name without its final
//! `.extension`; a name whose only dot is its first character has no
//! extension.
use vstd::prelude::*;

use crate::text::{has_prefix, starts_with};

verus! {

/// Index of the last `c` in `s`, if any.
pub open spec fn last_index_of(s: Seq<char>, c: char) -> Option<int>
    decreases s.len(),
{
    if s.len() == 0 {
        None
    } else if s.last() == c {
        Some(s.len() - 1)
    } else {
        last_index_of(s.drop_last(), c)
    }
}

/// The characters after the last `/` of `s` (all of `s` when it has none).
pub open spec fn last_segment(s: Seq<char>) -> Seq<char> {
    match last_index_of(s, '/') {
        Some(i) => s.subrange(i + 1, s.len() as int),
        None => s,
    }
}

/// The last segment of `s` between slashes that is neither empty nor `.`.
pub open spec fn last_named_segment(s: Seq<char>) -> Option<Seq<char>>
    decreases s.len(),
{
    match last_index_of(s, '/') {
        None => if s.len() > 0 && s != seq!['.'] {
            Some(s)
        } else {
            None
        },
        Some(i) => {
            proof {
                lemma_last_index_bounds(s, '/');
            }
            let seg = s.subrange(i + 1, s.len() as int);
            if seg.len() > 0 && seg != seq!['.'] {
                Some(seg)
            } else {
                last_named_segment(s.subrange(0, i))
            }
        },
    }
}

/// The file name of a path: its last named segment, unless that is `..`.
pub open spec fn file_name_of(path: Seq<char>) -> Option<Seq<char>> {
    match last_named_segment(path) {
        Some(seg) => if seg == seq!['.', '.'] {
            None
        } else {
            Some(seg)
        },
        None => None,
    }
}

/// The stem of a file name: everything before its last `.`, unless it has no
/// dot or its only dot leads the name.
pub open spec fn stem_of(name: Seq<char>) -> Seq<char> {
    match last_index_of(name, '.') {
        Some(d) => if d == 0 {
            name
        } else {
            name.subrange(0, d)
        },
        None => name,
    }
}

/// Display name of a path: the file stem, or the whole path when it has no
/// file name.
pub open spec fn display_name_of(path: Seq<char>) -> Seq<char> {
    match file_name_of(path) {
        Some(name) => stem_of(name),
        None => path,
    }
}

/// The last index of a character, when there is one, holds that character.
pub proof fn lemma_last_index_bounds(s: Seq<char>, c: char)
    ensures
        last_index_of(s, c) matches Some(i) ==> 0 <= i < s.len() && s[i] == c,
    decreases s.len(),
{
    if s.len() > 0 {
        lemma_last_index_bounds(s.drop_last(), c);
    }
}

proof fn lemma_last_index_found(s: Seq<char>, c: char, i: int)
    requires
        0 <= i < s.len(),
        s[i] == c,
        forall|j: int| i < j < s.len() ==> s[j] != c,
    ensures
        last_index_of(s, c) == Some(i),
    decreases s.len(),
{
    if i < s.len() - 1 {
        lemma_last_index_found(s.drop_last(), c, i);
    }
}

proof fn lemma_last_index_absent(s: Seq<char>, c: char)
    requires
        forall|j: int| 0 <= j < s.len() ==> s[j] != c,
    ensures
        last_index_of(s, c) == None::<int>,
    decreases s.len(),
{
    if s.len() > 0 {
        lemma_last_index_absent(s.drop_last(), c);
    }
}

/// Scan `s[..end]` backwards for `c`: the index of the last one, or `None`.
pub(crate) fn find_last(s: &str, end: usize, c: char) -> (r: Option<usize>)
    requires
        end <= s@.len(),
    ensures
        r matches Some(i) ==> i < end && s@[i as int] == c && last_index_of(
            s@.subrange(0, end as int),
            c,
        ) == Some(i as int),
        r is None ==> last_index_of(s@.subrange(0, end as int), c) == None::<int>,
{
    let mut j = end;
    while j > 0
        invariant
            j <= end <= s@.len(),
            forall|k: int| j <= k < end ==> s@[k] != c,
        decreases j,
    {
        if s.get_char(j - 1) == c {
            proof {
                lemma_last_index_found(s@.subrange(0, end as int), c, j - 1);
            }
            return Some(j - 1);
        }
        j = j - 1;
    }
    proof {
        lemma_last_index_absent(s@.subrange(0, end as int), c);
    }
    None
}

/// Bounds `(start, end)` of the last segment of `path` that is neither empty
/// nor `.`.
fn named_segment_bounds(path: &str) -> (r: Option<(usize, usize)>)
    ensures
        r matches Some((a, b)) ==> a < b <= path@.len() && last_named_segment(path@) == Some(
            path@.subrange(a as int, b as int),
        ),
        r is None ==> last_named_segment(path@) == None::<Seq<char>>,
{
    let len = path.unicode_len();
    let mut end = len;
    proof {
        assert(path@.subrange(0, len as int) =~= path@);
    }
    loop
        invariant
            len == path@.len(),
            end <= len,
            last_named_segment(path@.subrange(0, end as int)) == last_named_segment(path@),
        decreases end,
    {
        let ghost prefix = path@.subrange(0, end as int);
        let slash = find_last(path, end, '/');
        let start = match slash {
            Some(i) => i + 1,
            None => 0,
        };
        let seg_len = end - start;
        let is_dot = seg_len == 1 && path.get_char(start) == '.';
        proof {
            let seg = prefix.subrange(start as int, end as int);
            assert(seg =~= path@.subrange(start as int, end as int));
            if seg_len == 1 {
                assert(seg[0] == path@[start as int]);
                if path@[start as int] == '.' {
                    assert(seg =~= seq!['.']);
                } else {
                    assert(seg != seq!['.']);
                }
            } else if seg_len != 1 {
                assert(seg.len() != 1);
                assert(seg != seq!['.']);
            }
            if slash is None {
                assert(seg =~= prefix);
            }
        }
        if seg_len > 0 && !is_dot {
            return Some((start, end));
        }
        match slash {
            None => {
                return None;
            },
            Some(i) => {
                proof {
                    assert(prefix.subrange(0, i as int) =~= path@.subrange(0, i as int));
                }
                end = i;
            },
        }
    }
}

/// `seg` is exactly `..`.
fn is_parent_dir(seg: &str) -> (r: bool)
    ensures
        r == (seg@ == seq!['.', '.']),
{
    let len = seg.unicode_len();
    if len != 2 {
        proof {
            assert(seg@.len() != 2);
        }
        return false;
    }
    let r = seg.get_char(0) == '.' && seg.get_char(1) == '.';
    proof {
        if r {
            assert(seg@ =~= seq!['.', '.']);
        }
    }
    r
}

/// The stem of a file name.
fn stem(name: &str) -> (r: String)
    ensures
        r@ == stem_of(name@),
{
    let len = name.unicode_len();
    proof {
        assert(name@.subrange(0, len as int) =~= name@);
    }
    match find_last(name, len, '.') {
        Some(d) => {
            if d == 0 {
                String::from_str(name)
            } else {
                String::from_str(name.substring_char(0, d))
            }
        },
        None => String::from_str(name),
    }
}

/// The file name of a path (its last named component), if it has one.
pub fn file_name(path: &str) -> (name: Option<String>)
    ensures
        name matches Some(n) ==> file_name_of(path@) == Some(n@),
        name is None ==> file_name_of(path@) == None::<Seq<char>>,
{
    match named_segment_bounds(path) {
        None => None,
        Some((a, b)) => {
            let seg = path.substring_char(a, b);
            if is_parent_dir(seg) {
                None
            } else {
                Some(String::from_str(seg))
            }
        },
    }
}

/// Display name for a path: the file stem, or the whole path as a fallback.
pub fn display_name(path: &str) -> (name: String)
    ensures
        name@ == display_name_of(path@),
{
    match named_segment_bounds(path) {
        None => String::from_str(path),
        Some((a, b)) => {
            let seg = path.substring_char(a, b);
            if is_parent_dir(seg) {
                String::from_str(path)
            } else {
                stem(seg)
            }
        },
    }
}

/// `rel` appended to `base` as `PathBuf::push` does for a relative `rel`: a
/// `/` between them unless `base` is empty or already ends with one.
pub open spec fn joined(base: Seq<char>, rel: Seq<char>) -> Seq<char> {
    if base.len() == 0 || base.last() == '/' {
        base + rel
    } else {
        base + seq!['/'] + rel
    }
}

/// Join a relative path onto a base path.
pub fn join_path(base: &str, rel: &str) -> (r: String)
    ensures
        r@ == joined(base@, rel@),
{
    let mut r = String::from_str(base);
    let len = base.unicode_len();
    if len > 0 && base.get_char(len - 1) != '/' {
        r.append("/");
        proof {
            reveal_strlit("/");
        }
    }
    r.append(rel);
    proof {
        if !(base@.len() == 0 || base@.last() == '/') {
            assert(r@ =~= base@ + seq!['/'] + rel@);
        } else {
            assert(r@ =~= base@ + rel@);
        }
    }
    r
}

/// A path with a leading `~/` replaced by the home directory, when there is
/// one; any other path unchanged.
pub open spec fn home_expanded(path: Seq<char>, home: Option<Seq<char>>) -> Seq<char> {
    match home {
        Some(h) => if has_prefix(path, seq!['~', '/']) {
            h + seq!['/'] + path.skip(2)
        } else {
            path
        },
        None => path,
    }
}

/// Expand a leading `~/` with the home directory `home` (the value of
/// `HOME`, if set).
pub fn expand_home(path: &str, home: Option<&str>) -> (r: String)
    ensures
        r@ == home_expanded(path@, match home {
            Some(h) => Some(h@),
            None => None,
        }),
{
    proof {
        reveal_strlit("~/");
        reveal_strlit("/");
        assert("~/"@ =~= seq!['~', '/']);
    }
    match home {
        Some(h) => {
            if starts_with(path, "~/") {
                let len = path.unicode_len();
                let rest = path.substring_char(2, len);
                let mut r = String::from_str(h);
                r.append("/");
                r.append(rest);
                proof {
                    assert(rest@ =~= path@.skip(2));
                    assert(r@ =~= h@ + seq!['/'] + path@.skip(2));
                }
                r
            } else {
                String::from_str(path)
            }
        },
        None => String::from_str(path),
    }
}

/// Where the playlist is stored: `where-winds-meet-player/playlist.json`
/// under `$XDG_CONFIG_HOME`, else under `$HOME/.config`, else under `.`.
pub open spec fn playlist_path_of(xdg_config_home: Option<Seq<char>>, home: Option<Seq<char>>) -> Seq<char> {
    let base = match xdg_config_home {
        Some(x) => x,
        None => match home {
            Some(h) => joined(h, ".config"@),
            None => "."@,
        },
    };
    joined(base, "where-winds-meet-player/playlist.json"@)
}

/// The playlist file's path from the values of `XDG_CONFIG_HOME` and `HOME`.
pub fn default_playlist_path(xdg_config_home: Option<&str>, home: Option<&str>) -> (r: String)
    ensures
        r@ == playlist_path_of(
            match xdg_config_home {
                Some(x) => Some(x@),
                None => None,
            },
            match home {
                Some(h) => Some(h@),
                None => None,
            },
        ),
{
    let base = match xdg_config_home {
        Some(x) => String::from_str(x),
        None => match home {
            Some(h) => join_path(h, ".config"),
            None => String::from_str("."),
        },
    };
    join_path(base.as_str(), "where-winds-meet-player/playlist.json")
}

/// Where the preview SoundFonts live: `.local/share/where-winds-meet-player/soundfonts`
/// under `$HOME` (relative to the working directory without one).
pub open spec fn soundfonts_dir_of(home: Option<Seq<char>>) -> Seq<char> {
    joined(
        match home {
            Some(h) => h,
            None => Seq::empty(),
        },
        ".local/share/where-winds-meet-player/soundfonts"@,
    )
}

/// The SoundFont directory from the value of `HOME`.
pub fn soundfonts_dir(home: Option<&str>) -> (r: String)
    ensures
        r@ == soundfonts_dir_of(
            match home {
                Some(h) => Some(h@),
                None => None,
            },
        ),
{
    let base = match home {
        Some(h) => h,
        None => "",
    };
    proof {
        reveal_strlit("");
    }
    join_path(base, ".local/share/where-winds-meet-player/soundfonts")
}

/// The directories searched for preview SoundFonts, in order: the
/// `soundfonts/` bundled next to the program (in `program_dir`), then the
/// user's directory under `$HOME`.
pub fn soundfont_dirs(program_dir: &str, home: Option<&str>) -> (dirs: Vec<String>)
    ensures
        dirs.len() == 2,
        dirs@[0]@ == joined(program_dir@, "soundfonts"@),
        dirs@[1]@ == soundfonts_dir_of(
            match home {
                Some(h) => Some(h@),
                None => None,
            },
        ),
{
    let mut dirs: Vec<String> = Vec::new();
    dirs.push(join_path(program_dir, "soundfonts"));
    dirs.push(soundfonts_dir(home));
    dirs
}

/// The folders scanned for songs at start-up: `~/Projects/test-midi-files`
/// and `~/Music`, expanded with the home directory.
pub fn default_scan_dirs(home: Option<&str>) -> (dirs: Vec<String>)
    ensures
        dirs.len() == 2,
        dirs@[0]@ == home_expanded("~/Projects/test-midi-files"@, match home {
            Some(h) => Some(h@),
            None => None,
        }),
        dirs@[1]@ == home_expanded("~/Music"@, match home {
            Some(h) => Some(h@),
            None => None,
        }),
{
    let mut dirs: Vec<String> = Vec::new();
    dirs.push(expand_home("~/Projects/test-midi-files", home));
    dirs.push(expand_home("~/Music", home));
    dirs
}

} // verus!
