//! Path rules for plugin directories and plugin-relative file paths, in the
//! Windows path syntax (`/` and `\` separate components, `X:` is a drive
//! prefix).

use vstd::prelude::*;
use vstd::string::*;

verus! {

pub open spec fn is_separator(c: char) -> bool {
    c == '/' || c == '\\'
}

pub open spec fn is_ascii_alpha(c: char) -> bool {
    ('a' <= c && c <= 'z') || ('A' <= c && c <= 'Z')
}

/// `s` starts with a drive prefix such as `C:`.
pub open spec fn has_drive_prefix(s: Seq<char>) -> bool {
    s.len() >= 2 && is_ascii_alpha(s[0]) && s[1] == ':'
}

/// The index of the first separator in `s`, or its length.
pub open spec fn first_separator(s: Seq<char>) -> int
    decreases s.len(),
{
    if s.len() == 0 {
        0
    } else if is_separator(s[0]) {
        0
    } else {
        1 + first_separator(s.drop_first())
    }
}

/// `s` names exactly one normal path component: no root, no drive prefix, a
/// first component other than `.` and `..`, and after it only separators and
/// `.` components (which a path's component list skips).
pub open spec fn is_single_directory_name(s: Seq<char>) -> bool {
    let k = first_separator(s);
    &&& s.len() > 0
    &&& !is_separator(s[0])
    &&& !has_drive_prefix(s)
    &&& s.take(k) != seq!['.']
    &&& s.take(k) != seq!['.', '.']
    &&& forall|i: int|
        k <= i < s.len() && !is_separator(#[trigger] s[i]) ==> s[i] == '.' && (i + 1 == s.len()
            || is_separator(s[i + 1]))
}

/// `s` has a `..` component.
pub open spec fn has_parent_component(s: Seq<char>) -> bool {
    exists|i: int|
        0 <= i && i + 1 < s.len() && #[trigger] s[i] == '.' && s[i + 1] == '.' && (i == 0
            || is_separator(s[i - 1])) && (i + 2 == s.len() || is_separator(s[i + 2]))
}

/// A plugin-relative path that stays inside the plugin directory: not
/// absolute, no root, no drive prefix and no `..` component.
pub open spec fn is_safe_relative_path(s: Seq<char>) -> bool {
    &&& !(s.len() > 0 && is_separator(s[0]))
    &&& !has_drive_prefix(s)
    &&& !has_parent_component(s)
}

fn separator(c: char) -> (r: bool)
    ensures
        r == is_separator(c),
{
    c == '/' || c == '\\'
}

fn drive_prefix(s: &str, n: usize) -> (r: bool)
    requires
        n == s@.len(),
    ensures
        r == has_drive_prefix(s@),
{
    if n < 2 {
        return false;
    }
    let c = s.get_char(0);
    (('a' <= c && c <= 'z') || ('A' <= c && c <= 'Z')) && s.get_char(1) == ':'
}

proof fn lemma_first_separator(s: Seq<char>)
    ensures
        0 <= first_separator(s) <= s.len(),
        forall|j: int| 0 <= j < first_separator(s) ==> !is_separator(#[trigger] s[j]),
        first_separator(s) < s.len() ==> is_separator(s[first_separator(s)]),
    decreases s.len(),
{
    if s.len() > 0 && !is_separator(s[0]) {
        lemma_first_separator(s.drop_first());
        assert forall|j: int| 0 <= j < first_separator(s) implies !is_separator(#[trigger] s[j]) by {
            if j > 0 {
                assert(s[j] == s.drop_first()[j - 1]);
            }
        }
    }
}

proof fn lemma_first_separator_unique(s: Seq<char>, k: int)
    requires
        0 <= k <= s.len(),
        forall|j: int| 0 <= j < k ==> !is_separator(#[trigger] s[j]),
        k < s.len() ==> is_separator(s[k]),
    ensures
        first_separator(s) == k,
    decreases s.len(),
{
    if s.len() > 0 && k > 0 {
        assert forall|j: int| 0 <= j < k - 1 implies !is_separator(#[trigger] s.drop_first()[j]) by {
            assert(s.drop_first()[j] == s[j + 1]);
        }
        lemma_first_separator_unique(s.drop_first(), k - 1);
    }
}

/// Whether `dir` names exactly one normal path component.
pub fn single_directory_name(dir: &str) -> (r: bool)
    ensures
        r == is_single_directory_name(dir@),
{
    let n = dir.unicode_len();
    if n == 0 || separator(dir.get_char(0)) || drive_prefix(dir, n) {
        return false;
    }
    let mut k: usize = 0;
    while k < n && !separator(dir.get_char(k))
        invariant
            n == dir@.len(),
            k <= n,
            forall|j: int| 0 <= j < k ==> !is_separator(#[trigger] dir@[j]),
        decreases n - k,
    {
        k = k + 1;
    }
    proof {
        lemma_first_separator_unique(dir@, k as int);
    }
    let first_is_dot = k == 1 && dir.get_char(0) == '.';
    let first_is_dots = k == 2 && dir.get_char(0) == '.' && dir.get_char(1) == '.';
    proof {
        if k == 1 {
            if dir@.take(1) == seq!['.'] {
                assert(dir@.take(1)[0] == dir@[0]);
            }
            if dir@[0] == '.' {
                assert(dir@.take(1) =~= seq!['.']);
            }
        } else {
            assert(dir@.take(k as int).len() != 1);
        }
        if k == 2 {
            if dir@.take(2) == seq!['.', '.'] {
                assert(dir@.take(2)[0] == dir@[0] && dir@.take(2)[1] == dir@[1]);
            }
            if dir@[0] == '.' && dir@[1] == '.' {
                assert(dir@.take(2) =~= seq!['.', '.']);
            }
        } else {
            assert(dir@.take(k as int).len() != 2);
        }
    }
    if first_is_dot || first_is_dots {
        return false;
    }
    let mut i: usize = k;
    while i < n
        invariant
            n == dir@.len(),
            k <= i <= n,
            k == first_separator(dir@),
            forall|j: int|
                k <= j < i && !is_separator(#[trigger] dir@[j]) ==> dir@[j] == '.' && (j + 1
                    == dir@.len() || is_separator(dir@[j + 1])),
        decreases n - i,
    {
        let c = dir.get_char(i);
        if !separator(c) {
            if c != '.' {
                return false;
            }
            if i + 1 < n && !separator(dir.get_char(i + 1)) {
                return false;
            }
        }
        i = i + 1;
    }
    true
}

/// Whether `relative` stays inside the directory it is resolved against.
pub fn safe_relative_path(relative: &str) -> (r: bool)
    ensures
        r == is_safe_relative_path(relative@),
{
    let n = relative.unicode_len();
    if n > 0 && separator(relative.get_char(0)) {
        return false;
    }
    if drive_prefix(relative, n) {
        return false;
    }
    let mut i: usize = 0;
    while i < n && n - i > 1
        invariant
            n == relative@.len(),
            i <= n,
            forall|j: int|
                0 <= j < i && j + 1 < n ==> !(#[trigger] relative@[j] == '.' && relative@[j + 1]
                    == '.' && (j == 0 || is_separator(relative@[j - 1])) && (j + 2 == n
                    || is_separator(relative@[j + 2]))),
        decreases n - i,
    {
        if relative.get_char(i) == '.' && relative.get_char(i + 1) == '.' && (i == 0 || separator(
            relative.get_char(i - 1),
        )) && (i + 2 == n || separator(relative.get_char(i + 2))) {
            return false;
        }
        i = i + 1;
    }
    true
}

/// Where a path that a plugin asks to read points.
#[derive(Debug, Clone, PartialEq, Eq)]
pub enum UserPath {
    /// `~`: the user's home directory.
    Home,
    /// `~/rest` or `~\\rest`: `rest` below the home directory.
    UnderHome(String),
    /// Any other path, as given (trimmed).
    Plain(String),
}

/// Classifies a path a plugin asks to read: surrounding whitespace is
/// ignored, a blank path is refused, and a leading `~` stands for the home
/// directory.
pub fn classify_user_path(path: &str) -> (r: Result<UserPath, String>)
    ensures
        ({
            let t = crate::text::trimmed(path@);
            if t.len() == 0 {
                r matches Err(e) && e@ == "文件路径不能为空"@
            } else if t == seq!['~'] {
                r == Ok::<UserPath, String>(UserPath::Home)
            } else if t.len() >= 2 && t[0] == '~' && is_separator(t[1]) {
                r matches Ok(UserPath::UnderHome(rest)) && rest@ == t.skip(2)
            } else {
                r matches Ok(UserPath::Plain(p)) && p@ == t
            }
        }),
{
    let t = crate::text::trim(path);
    let s = t.as_str();
    let n = s.unicode_len();
    if n == 0 {
        return Err(crate::text::owned("文件路径不能为空"));
    }
    if n == 1 && s.get_char(0) == '~' {
        assert(s@ =~= seq!['~']);
        return Ok(UserPath::Home);
    }
    if n >= 2 && s.get_char(0) == '~' && separator(s.get_char(1)) {
        let rest = s.substring_char(2, n);
        assert(rest@ =~= s@.skip(2));
        return Ok(UserPath::UnderHome(crate::text::owned(rest)));
    }
    proof {
        if s@ == seq!['~'] {
            assert(s@.len() == 1);
        }
    }
    Ok(UserPath::Plain(t))
}

} // verus!
