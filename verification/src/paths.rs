//! Path names as the library compares and builds them. Paths here are the
//! normalized paths the application hands over: `/`-separated, with no `.`
//! or `..` components and no trailing separator. The reserved artifact names
//! mark the output layer's own temporary and backup files.

use vstd::prelude::*;
use vstd::string::*;

verus! {

/// Position of the last `c` in `s`, or -1.
pub open spec fn last_index_of(s: Seq<char>, c: char) -> int
    decreases s.len(),
{
    if s.len() == 0 {
        -1
    } else if s.last() == c {
        s.len() - 1
    } else {
        last_index_of(s.drop_last(), c)
    }
}

proof fn lemma_last_index_of(s: Seq<char>, c: char)
    ensures
        -1 <= last_index_of(s, c) < s.len(),
        last_index_of(s, c) >= 0 ==> s[last_index_of(s, c)] == c,
        forall|j: int| last_index_of(s, c) < j < s.len() ==> s[j] != c,
    decreases s.len(),
{
    if s.len() > 0 && s.last() != c {
        lemma_last_index_of(s.drop_last(), c);
        let k = last_index_of(s.drop_last(), c);
        if k >= 0 {
            assert(s.drop_last()[k] == s[k]);
        }
        assert forall|j: int| last_index_of(s, c) < j < s.len() implies s[j] != c by {
            if j < s.len() - 1 {
                assert(s.drop_last()[j] == s[j]);
            }
        }
    }
}

/// The last component of a path: `None` for an empty name, `.` or `..`.
pub open spec fn spec_file_name(path: Seq<char>) -> Option<Seq<char>> {
    let name = path.subrange(last_index_of(path, '/') + 1, path.len() as int);
    if name.len() == 0 || name == seq!['.'] || name == seq!['.', '.'] {
        None
    } else {
        Some(name)
    }
}

/// A file name without its last extension; a leading dot is not an extension.
pub open spec fn spec_file_stem(name: Seq<char>) -> Seq<char> {
    let dot = last_index_of(name, '.');
    if name == seq!['.', '.'] || dot <= 0 {
        name
    } else {
        name.subrange(0, dot)
    }
}

/// The path with its last component replaced.
pub open spec fn spec_with_file_name(path: Seq<char>, name: Seq<char>) -> Seq<char> {
    path.subrange(0, last_index_of(path, '/') + 1) + name
}

/// The directory part of a path: empty for a bare name, `/` below the root,
/// `None` for the empty path and the root itself.
pub open spec fn spec_parent(path: Seq<char>) -> Option<Seq<char>> {
    let k = last_index_of(path, '/');
    if path.len() == 0 || path == seq!['/'] {
        None
    } else if k < 0 {
        Some(Seq::empty())
    } else if k == 0 {
        Some(seq!['/'])
    } else {
        Some(path.subrange(0, k))
    }
}

/// `child` appended below `base`.
pub open spec fn spec_join(base: Seq<char>, child: Seq<char>) -> Seq<char> {
    if base.len() == 0 {
        child
    } else if base.last() == '/' {
        base + child
    } else {
        base + seq!['/'] + child
    }
}

fn last_index(s: &str, c: char) -> (r: Option<usize>)
    ensures
        match r {
            Some(i) => i as int == last_index_of(s@, c),
            None => last_index_of(s@, c) == -1,
        },
{
    proof {
        lemma_last_index_of(s@, c);
    }
    let n = s.unicode_len();
    let mut i: usize = n;
    while i > 0
        invariant
            0 <= i <= n,
            n == s@.len(),
            -1 <= last_index_of(s@, c) < n,
            forall|j: int| i <= j < n ==> s@[j] != c,
            last_index_of(s@, c) >= 0 ==> s@[last_index_of(s@, c)] == c,
            forall|j: int| last_index_of(s@, c) < j < n ==> s@[j] != c,
        decreases i,
    {
        if s.get_char(i - 1) == c {
            return Some(i - 1);
        }
        i = i - 1;
    }
    None
}

fn equals(s: &str, t: &str) -> (r: bool)
    ensures
        r == (s@ == t@),
{
    let n = s.unicode_len();
    if n != t.unicode_len() {
        return false;
    }
    let mut i: usize = 0;
    while i < n
        invariant
            n == s@.len(),
            n == t@.len(),
            0 <= i <= n,
            forall|j: int| 0 <= j < i ==> s@[j] == t@[j],
        decreases n - i,
    {
        if s.get_char(i) != t.get_char(i) {
            return false;
        }
        i = i + 1;
    }
    assert(s@ =~= t@);
    true
}

/// The last component of a path, when it has one.
pub fn file_name(path: &str) -> (r: Option<String>)
    ensures
        match spec_file_name(path@) {
            Some(n) => r matches Some(s) && s@ == n,
            None => r is None,
        },
{
    proof {
        lemma_last_index_of(path@, '/');
    }
    let n = path.unicode_len();
    let start = match last_index(path, '/') {
        Some(k) => k + 1,
        None => 0,
    };
    let name = path.substring_char(start, n);
    let len = name.unicode_len();
    if len == 0 || (len == 1 && name.get_char(0) == '.') || (len == 2 && name.get_char(0) == '.'
        && name.get_char(1) == '.') {
        proof {
            if len == 1 {
                assert(name@ =~= seq!['.']);
            }
            if len == 2 {
                assert(name@ =~= seq!['.', '.']);
            }
        }
        return None;
    }
    proof {
        if name@ == seq!['.'] || name@ == seq!['.', '.'] {
            assert(name@[0] == '.');
        }
    }
    Some(String::from_str(name))
}

/// A file name without its last extension.
pub fn file_stem(name: &str) -> (r: String)
    ensures
        r@ == spec_file_stem(name@),
{
    proof {
        lemma_last_index_of(name@, '.');
    }
    let n = name.unicode_len();
    let dots = n == 2 && name.get_char(0) == '.' && name.get_char(1) == '.';
    proof {
        if n == 2 && name@[0] == '.' && name@[1] == '.' {
            assert(name@ =~= seq!['.', '.']);
        }
        if name@ == seq!['.', '.'] {
            assert(n == 2);
        }
    }
    if dots {
        return String::from_str(name);
    }
    match last_index(name, '.') {
        Some(d) => {
            if d == 0 {
                String::from_str(name)
            } else {
                String::from_str(name.substring_char(0, d))
            }
        },
        None => String::from_str(name),
    }
}

/// The path with its last component replaced by `name`.
pub fn with_file_name(path: &str, name: &str) -> (r: String)
    ensures
        r@ == spec_with_file_name(path@, name@),
{
    proof {
        lemma_last_index_of(path@, '/');
    }
    let _n = path.unicode_len();
    let end = match last_index(path, '/') {
        Some(k) => k + 1,
        None => 0,
    };
    proof {
        lemma_last_index_of(path@, '/');
    }
    let head = String::from_str(path.substring_char(0, end));
    head.concat(name)
}

/// The directory part of a path.
pub fn parent(path: &str) -> (r: Option<String>)
    ensures
        match spec_parent(path@) {
            Some(p) => r matches Some(s) && s@ == p,
            None => r is None,
        },
{
    let n = path.unicode_len();
    if n == 0 {
        return None;
    }
    proof {
        lemma_last_index_of(path@, '/');
    }
    if n == 1 && path.get_char(0) == '/' {
        assert(path@ =~= seq!['/']);
        return None;
    }
    proof {
        if path@ == seq!['/'] {
            assert(path@[0] == '/');
        }
    }
    match last_index(path, '/') {
        None => Some(String::new()),
        Some(k) => {
            if k == 0 {
                let r = String::from_str("/");
                proof {
                    reveal_strlit("/");
                }
                assert(r@ =~= seq!['/']);
                Some(r)
            } else {
                Some(String::from_str(path.substring_char(0, k)))
            }
        },
    }
}

/// `child` appended below `base`.
pub fn join(base: &str, child: &str) -> (r: String)
    ensures
        r@ == spec_join(base@, child@),
{
    let n = base.unicode_len();
    if n == 0 {
        return String::from_str(child);
    }
    let head = String::from_str(base);
    if base.get_char(n - 1) == '/' {
        head.concat(child)
    } else {
        proof {
            reveal_strlit("/");
        }
        let with_separator = head.concat("/");
        assert(with_separator@ =~= base@ + seq!['/']);
        with_separator.concat(child)
    }
}

/// Prefix of the output layer's temporary files.
pub open spec fn output_prefix() -> Seq<char> {
    ".pixofold-output-"@
}

/// Prefix of the output layer's backups.
pub open spec fn backup_prefix() -> Seq<char> {
    ".pixofold-backup-"@
}

/// Length of the random token in an artifact name.
pub const RANDOM_LEN: usize = 6;

/// An ASCII letter or digit.
pub open spec fn is_alphanumeric(c: char) -> bool {
    ('0' <= c <= '9') || ('a' <= c <= 'z') || ('A' <= c <= 'Z')
}

/// `prefix`, six ASCII letters or digits, then `suffix`.
pub open spec fn reserved_shape(name: Seq<char>, prefix: Seq<char>, suffix: Seq<char>) -> bool {
    &&& name.len() == prefix.len() + RANDOM_LEN + suffix.len()
    &&& name.subrange(0, prefix.len() as int) == prefix
    &&& name.subrange(name.len() - suffix.len(), name.len() as int) == suffix
    &&& forall|i: int| prefix.len() <= i < prefix.len() + RANDOM_LEN ==> is_alphanumeric(#[trigger] name[i])
}

/// A name the output layer reserves: its temporary outputs and its backups.
/// Ordinary hidden files and `_compressed` pictures do not match.
pub open spec fn spec_is_artifact(path: Seq<char>) -> bool {
    match spec_file_name(path) {
        Some(name) => reserved_shape(name, output_prefix(), ".tmp"@) || reserved_shape(
            name,
            backup_prefix(),
            ".png"@,
        ),
        None => false,
    }
}

fn has_shape(name: &str, prefix: &str, suffix: &str) -> (r: bool)
    ensures
        r == reserved_shape(name@, prefix@, suffix@),
{
    let n = name.unicode_len();
    let p = prefix.unicode_len();
    let q = suffix.unicode_len();
    if q > usize::MAX - RANDOM_LEN || p > usize::MAX - RANDOM_LEN - q || n != p + RANDOM_LEN + q {
        return false;
    }
    let head = name.substring_char(0, p);
    if !equals(head, prefix) {
        return false;
    }
    let tail = name.substring_char(n - q, n);
    if !equals(tail, suffix) {
        return false;
    }
    let mut i: usize = p;
    while i < p + RANDOM_LEN
        invariant
            n == name@.len(),
            p == prefix@.len(),
            q == suffix@.len(),
            name@.subrange(0, p as int) == prefix@,
            name@.subrange(n - q, n as int) == suffix@,
            n == p + RANDOM_LEN + q,
            p <= i <= p + RANDOM_LEN,
            forall|j: int| p <= j < i ==> is_alphanumeric(#[trigger] name@[j]),
        decreases p + RANDOM_LEN - i,
    {
        let c = name.get_char(i);
        if !(('0' <= c && c <= '9') || ('a' <= c && c <= 'z') || ('A' <= c && c <= 'Z')) {
            assert(!is_alphanumeric(name@[i as int]));
            return false;
        }
        i = i + 1;
    }
    true
}

/// Whether the path names one of the output layer's reserved artifacts.
pub fn is_artifact(path: &str) -> (r: bool)
    ensures
        r == spec_is_artifact(path@),
{
    match file_name(path) {
        Some(name) => has_shape(name.as_str(), ".pixofold-output-", ".tmp") || has_shape(
            name.as_str(),
            ".pixofold-backup-",
            ".png",
        ),
        None => false,
    }
}

} // verus!
