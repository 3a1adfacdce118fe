//! The ignore matcher: glob-style patterns deciding which changed paths
//! are suppressed before they reach the debouncer.
//!
//! Patterns support `?` (any one character) and `*` / `**` (any run of
//! characters).  Paths and user patterns are normalized so that one
//! pattern set works with either path-separator convention: every `\` is
//! rewritten to `/` before matching.  A fixed default set covering
//! version-control metadata, editor swap files, build output and embedded
//! database journals is always active; user patterns are appended to it.

use vstd::prelude::*;
use crate::error::{Error, ErrorKind};
use crate::helpers::{find_char, first_index_of, last_index_of, rfind_char, str_chars};

verus! {

/// Separator normalization of one character.
pub open spec fn norm_char(c: char) -> char {
    if c == '\\' { '/' } else { c }
}

/// Separator normalization of a whole path or pattern.
pub open spec fn normalize_path(s: Seq<char>) -> Seq<char> {
    s.map_values(|c: char| norm_char(c))
}

/// Glob matching.  `?` matches any single character; `*` matches any run
/// of characters, separators included (so `**` collapses to the same
/// meaning); every other character matches itself.
pub open spec fn glob_match(pat: Seq<char>, s: Seq<char>) -> bool
    decreases pat.len() + s.len(),
{
    if pat.len() == 0 {
        s.len() == 0
    } else if pat[0] == '*' {
        glob_match(pat.skip(1), s) || (s.len() > 0 && glob_match(pat, s.skip(1)))
    } else if pat[0] == '?' {
        s.len() > 0 && glob_match(pat.skip(1), s.skip(1))
    } else {
        s.len() > 0 && pat[0] == s[0] && glob_match(pat.skip(1), s.skip(1))
    }
}

/// Character classes and brace alternation are not part of the supported
/// pattern language; a pattern using them is rejected at configuration
/// time rather than silently treated as literal text.
pub open spec fn reserved_char(c: char) -> bool {
    c == '[' || c == ']' || c == '{' || c == '}'
}

/// A well-formed user pattern: free of unsupported glob syntax.
pub open spec fn pattern_wf(p: Seq<char>) -> bool {
    forall|i: int| 0 <= i < p.len() ==> !reserved_char(#[trigger] p[i])
}

/// The always-active default patterns: version-control metadata
/// directories, editor swap and backup files, build-output directories,
/// and embedded database journal files.
pub open spec fn default_ignore_patterns() -> Seq<Seq<char>> {
    seq![
        "*/.DS_Store"@,
        "*.sw?"@,
        "*.sw?x"@,
        "#*#"@,
        ".#*"@,
        ".*.kate-swp"@,
        "*/.hg/**"@,
        "*/.git/**"@,
        "*/.svn/**"@,
        "*.db"@,
        "*.db-*"@,
        "*/*.db-journal/**"@,
        "*/target/**"@,
    ]
}

/// The final segment of a normalized path: what follows the last `/`,
/// or the whole path when it has none.
pub open spec fn base_name(s: Seq<char>) -> Seq<char> {
    match last_index_of(s, '/') {
        Some(i) => s.skip(i + 1),
        None => s,
    }
}

/// Whether one (already normalized) pattern suppresses the (already
/// normalized) path: it matches the whole path, or — for a pattern
/// without any separator, which speaks about file names — the path's
/// final segment.
pub open spec fn pattern_matches_path(pat: Seq<char>, path: Seq<char>) -> bool {
    glob_match(pat, path) || (first_index_of(pat, '/') is None && glob_match(
        pat,
        base_name(path),
    ))
}

/// True when the (already normalized) pattern set suppresses `path`.
pub open spec fn path_ignored(pats: Seq<Seq<char>>, path: Seq<char>) -> bool {
    exists|k: int| 0 <= k < pats.len() && pattern_matches_path(pats[k], normalize_path(path))
}

/// Recursive glob matcher over character vectors, working on suffixes
/// `pat[i..]` and `s[j..]` so no slices are copied.
fn glob_match_at(pat: &Vec<char>, s: &Vec<char>, i: usize, j: usize) -> (r: bool)
    requires
        i <= pat.len(),
        j <= s.len(),
    ensures
        r == glob_match(pat@.skip(i as int), s@.skip(j as int)),
    decreases pat.len() - i + s.len() - j,
{
    proof {
        if i < pat.len() {
            assert(pat@.skip(i as int)[0] == pat@[i as int]);
            assert(pat@.skip(i as int).skip(1) =~= pat@.skip(i + 1 as int));
        }
        if j < s.len() {
            assert(s@.skip(j as int)[0] == s@[j as int]);
            assert(s@.skip(j as int).skip(1) =~= s@.skip(j + 1 as int));
        }
    }
    if i == pat.len() {
        j == s.len()
    } else if pat[i] == '*' {
        glob_match_at(pat, s, i + 1, j) || (j < s.len() && glob_match_at(pat, s, i, j + 1))
    } else if pat[i] == '?' {
        j < s.len() && glob_match_at(pat, s, i + 1, j + 1)
    } else {
        j < s.len() && pat[i] == s[j] && glob_match_at(pat, s, i + 1, j + 1)
    }
}

/// Rewrites every `\` to `/`.
fn normalize_chars(s: &Vec<char>) -> (r: Vec<char>)
    ensures
        r@ == normalize_path(s@),
{
    let mut r: Vec<char> = Vec::new();
    let mut i: usize = 0;
    while i < s.len()
        invariant
            i <= s.len(),
            r@ == normalize_path(s@.take(i as int)),
        decreases s.len() - i,
    {
        let c = s[i];
        if c == '\\' {
            r.push('/');
        } else {
            r.push(c);
        }
        proof {
            assert(r@ =~= normalize_path(s@.take(i + 1 as int)));
        }
        i = i + 1;
    }
    proof {
        assert(s@.take(s@.len() as int) =~= s@);
    }
    r
}

/// The characters after the last `/`, or all of them.
fn base_of(s: &Vec<char>) -> (r: Vec<char>)
    ensures
        r@ == base_name(s@),
{
    let n: usize = s.len();
    let start: usize = match rfind_char(s, '/') {
        Some(i) => {
            proof {
                crate::helpers::lemma_last_index_props(s@, '/');
                assert(i < n);
            }
            i + 1
        },
        None => 0,
    };
    proof {
        if start == 0 {
            assert(s@.skip(0) =~= s@);
        }
    }
    let mut r: Vec<char> = Vec::new();
    let mut i: usize = start;
    while i < s.len()
        invariant
            start <= i <= s@.len(),
            r@ == s@.subrange(start as int, i as int),
        decreases s@.len() - i,
    {
        r.push(s[i]);
        proof {
            assert(r@ =~= s@.subrange(start as int, i + 1 as int));
        }
        i = i + 1;
    }
    proof {
        assert(s@.subrange(start as int, s@.len() as int) =~= s@.skip(start as int));
    }
    r
}

/// Checks a user pattern for unsupported syntax.
fn pattern_ok(p: &Vec<char>) -> (r: bool)
    ensures
        r == pattern_wf(p@),
{
    let mut i: usize = 0;
    while i < p.len()
        invariant
            i <= p.len(),
            forall|k: int| 0 <= k < i ==> !reserved_char(#[trigger] p@[k]),
        decreases p.len() - i,
    {
        let c = p[i];
        if c == '[' || c == ']' || c == '{' || c == '}' {
            return false;
        }
        i = i + 1;
    }
    true
}

/// Compiled ignore patterns: the default set followed by the user's
/// patterns, all normalized, each stored as a character vector.
pub struct IgnoreMatcher {
    patterns: Vec<Vec<char>>,
}

impl IgnoreMatcher {
    /// The pattern set this matcher decides by.
    pub closed spec fn patterns(&self) -> Seq<Seq<char>> {
        self.patterns@.map_values(|p: Vec<char>| p@)
    }

    /// Compiles the matcher for a sequence of user patterns.  The result
    /// is the default set with the normalized user patterns appended;
    /// a user pattern using unsupported glob syntax is rejected with a
    /// configuration error, and if and only if one is present.
    pub fn new(user_patterns: &Vec<String>) -> (r: Result<IgnoreMatcher, Error>)
        ensures
            r is Ok <==> (forall|i: int|
                0 <= i < user_patterns@.len() ==> pattern_wf(#[trigger] user_patterns@[i]@)),
            r matches Ok(m) ==> m.patterns() == default_ignore_patterns()
                + user_patterns@.map_values(|s: String| normalize_path(s@)),
            r matches Err(e) ==> e.kind() == ErrorKind::InvalidInput,
    {
        let mut pats: Vec<Vec<char>> = Vec::new();
        pats.push(str_chars("*/.DS_Store"));
        pats.push(str_chars("*.sw?"));
        pats.push(str_chars("*.sw?x"));
        pats.push(str_chars("#*#"));
        pats.push(str_chars(".#*"));
        pats.push(str_chars(".*.kate-swp"));
        pats.push(str_chars("*/.hg/**"));
        pats.push(str_chars("*/.git/**"));
        pats.push(str_chars("*/.svn/**"));
        pats.push(str_chars("*.db"));
        pats.push(str_chars("*.db-*"));
        pats.push(str_chars("*/*.db-journal/**"));
        pats.push(str_chars("*/target/**"));
        proof {
            assert(pats@.map_values(|p: Vec<char>| p@) =~= default_ignore_patterns());
        }
        let mut i: usize = 0;
        while i < user_patterns.len()
            invariant
                i <= user_patterns@.len(),
                pats@.map_values(|p: Vec<char>| p@) == default_ignore_patterns()
                    + user_patterns@.take(i as int).map_values(|s: String| normalize_path(s@)),
                forall|k: int| 0 <= k < i ==> pattern_wf(#[trigger] user_patterns@[k]@),
            decreases user_patterns@.len() - i,
        {
            let raw = str_chars(user_patterns[i].as_str());
            if !pattern_ok(&raw) {
                return Err(Error::new(
                    ErrorKind::InvalidInput,
                    String::from_str("ignore pattern uses unsupported glob syntax"),
                ).with_help(String::from_str(
                    "only the wildcards '*', '?' and '**' are understood",
                )));
            }
            let norm = normalize_chars(&raw);
            let ghost pre = pats@.map_values(|p: Vec<char>| p@);
            pats.push(norm);
            proof {
                assert(pats@.map_values(|p: Vec<char>| p@)
                    =~~= pre.push(normalize_path(user_patterns@[i as int]@)));
                assert(pre.push(normalize_path(user_patterns@[i as int]@))
                    =~~= default_ignore_patterns()
                        + user_patterns@.take(i + 1 as int).map_values(
                            |s: String| normalize_path(s@),
                        ));
            }
            i = i + 1;
        }
        proof {
            assert(user_patterns@.take(user_patterns@.len() as int) =~= user_patterns@);
        }
        Ok(IgnoreMatcher { patterns: pats })
    }

    /// Decides whether a changed path is suppressed: true exactly when
    /// some pattern, default or user, matches the normalized path.
    pub fn matches(&self, path: &str) -> (r: bool)
        ensures
            r == path_ignored(self.patterns(), path@),
    {
        let raw = str_chars(path);
        let norm = normalize_chars(&raw);
        let base = base_of(&norm);
        let mut k: usize = 0;
        while k < self.patterns.len()
            invariant
                k <= self.patterns@.len(),
                norm@ == normalize_path(path@),
                base@ == base_name(norm@),
                forall|j: int| 0 <= j < k ==> !pattern_matches_path(
                    #[trigger] self.patterns()[j],
                    normalize_path(path@),
                ),
            decreases self.patterns@.len() - k,
        {
            proof {
                assert(self.patterns@[k as int]@.skip(0) =~= self.patterns()[k as int]);
                assert(norm@.skip(0) =~= norm@);
                assert(base@.skip(0) =~= base@);
            }
            if glob_match_at(&self.patterns[k], &norm, 0, 0) {
                return true;
            }
            if find_char(&self.patterns[k], '/').is_none() && glob_match_at(
                &self.patterns[k],
                &base,
                0,
                0,
            ) {
                return true;
            }
            k = k + 1;
        }
        false
    }
}

} // verus!
