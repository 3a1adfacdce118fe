//! Creating a playground: the option set, dependency-string parsing,
//! the default playground name, and the text processing behind template
//! discovery.
//!
//! The filesystem and subprocess work of creating a project happens in
//! the unverified shell; what is verified here is everything that turns
//! text into decisions: parsing `name` / `name=version` dependency
//! strings, scanning a lock file for the resolved version of the
//! template dependency, and filtering example file names.

use vstd::prelude::*;
use crate::error::{Error, ErrorKind};
use crate::helpers::{
    contains_chars, dec_digits, find_char, first_index_of, has_substring, is_prefix,
    last_index_of, rfind_char, starts_with_chars, str_chars, trim_range, trim_spec, u64_to_dec,
};
use crate::open::EditorOpts;

verus! {

/// Options for creating a new playground.
#[derive(Debug)]
pub struct NewOpts {
    /// The playground name; defaults to a timestamped one.
    pub name: Option<String>,
    /// How to open the editor afterwards.
    pub editor_opts: EditorOpts,
    /// Do not pass the wait flag to a GUI editor.
    pub no_w: bool,
    /// The editor is a GUI editor.
    pub gui: bool,
    /// The library whose example to base the entry point on.
    pub template: Option<String>,
    /// The dependencies to add, as `name` or `name=version` strings.
    pub deps: Vec<String>,
}

/// The default playground name for a given creation time.
pub fn playground_name(secs: u64) -> (r: String)
    ensures
        r@ == "playground-"@ + dec_digits(secs as int),
{
    let mut r = String::from_str("playground-");
    let digits = u64_to_dec(secs);
    r.append(digits.as_str());
    r
}

/// Two `=` signs make a dependency string malformed.
pub open spec fn dep_malformed(s: Seq<char>) -> bool {
    exists|i: int, j: int|
        0 <= i < j < s.len() && (#[trigger] s[i]) == '=' && (#[trigger] s[j]) == '='
}

/// A well-formed `name=version` split of `s`: the `=` at `i` is the
/// first one, the name is the trimmed text before it, the version the
/// trimmed text after it.
pub open spec fn dep_splits_at(s: Seq<char>, i: int, name: Seq<char>, ver: Seq<char>) -> bool {
    &&& 0 <= i < s.len()
    &&& s[i] == '='
    &&& forall|k: int| 0 <= k < i ==> (#[trigger] s[k]) != '='
    &&& name == trim_spec(s.take(i))
    &&& ver == trim_spec(s.skip(i + 1))
}

/// One dependency to add to the generated manifest.
#[derive(Clone, Debug, PartialEq)]
pub struct Dep {
    pub dep_name: String,
    pub dep_ver: String,
}

/// What a successful parse returns for the input `s`: with no `=` in
/// it, the trimmed whole string as the name and `*` as the version;
/// with one, the split at it.
pub open spec fn dep_parsed(s: Seq<char>, d: Dep) -> bool {
    if exists|k: int| 0 <= k < s.len() && (#[trigger] s[k]) == '=' {
        exists|i: int| #[trigger] dep_splits_at(s, i, d.dep_name@, d.dep_ver@)
    } else {
        d.dep_name@ == trim_spec(s) && d.dep_ver@ == "*"@
    }
}

impl Dep {
    /// Parses a dependency given as `name` or `name=version`.  Without
    /// a version the wildcard `*` is used; name and version are
    /// trimmed.  A string with more than one `=` is rejected, and only
    /// such a string.
    pub fn try_parse(dep: &str) -> (r: Result<Dep, Error>)
        ensures
            r is Err <==> dep_malformed(dep@),
            r matches Err(e) ==> {
                &&& e.kind() == ErrorKind::InvalidInput
                &&& e.message() == "dependency '"@ + dep@ + "' is in an incorrect format"@
                &&& e.help() == Some(
                    "dependencies must either be '<dep-name>' or '<dep-name>=<dep-version>'"@,
                )
            },
            r matches Ok(d) ==> dep_parsed(dep@, d),
    {
        let n: usize = dep.unicode_len();
        let chars = str_chars(dep);
        match find_char(&chars, '=') {
            None => {
                proof {
                    crate::helpers::lemma_first_index_props(dep@, '=');
                    assert(dep@.subrange(0, n as int) =~= dep@);
                }
                let name = trim_range(dep, 0, n);
                let d = Dep { dep_name: name, dep_ver: String::from_str("*") };
                proof {
                    assert(forall|k: int| 0 <= k < dep@.len() ==> (#[trigger] dep@[k]) != '=');
                    assert(dep_parsed(dep@, d));
                }
                Ok(d)
            },
            Some(i) => {
                proof {
                    crate::helpers::lemma_first_index_props(dep@, '=');
                }
                // A second '=' after the first makes the string malformed.
                let mut j: usize = i + 1;
                let mut second = false;
                while j < chars.len()
                    invariant
                        i < j <= chars@.len(),
                        chars@ == dep@,
                        second <==> exists|k: int| i < k < j && (#[trigger] chars@[k]) == '=',
                    decreases chars@.len() - j,
                {
                    if !second && chars[j] == '=' {
                        second = true;
                    }
                    j = j + 1;
                }
                if second {
                    let mut msg = String::from_str("dependency '");
                    msg.append(dep);
                    msg.append("' is in an incorrect format");
                    return Err(Error::new(ErrorKind::InvalidInput, msg).with_help(
                        String::from_str(
                            "dependencies must either be '<dep-name>' or '<dep-name>=<dep-version>'",
                        ),
                    ));
                }
                proof {
                    assert(!dep_malformed(dep@)) by {
                        if dep_malformed(dep@) {
                            let (a, b) = choose|a: int, b: int|
                                0 <= a < b < dep@.len() && (#[trigger] dep@[a]) == '='
                                    && (#[trigger] dep@[b]) == '=';
                            assert(a >= i && b > i);
                        }
                    }
                    assert(dep@.subrange(0, i as int) =~= dep@.take(i as int));
                    assert(dep@.subrange(i + 1 as int, n as int) =~= dep@.skip(i + 1 as int));
                }
                let name = trim_range(dep, 0, i);
                let ver = trim_range(dep, i + 1, n);
                let d = Dep { dep_name: name, dep_ver: ver };
                proof {
                    assert(dep@[i as int] == '=');
                    assert(dep_splits_at(dep@, i as int, d.dep_name@, d.dep_ver@));
                    assert(dep_parsed(dep@, d));
                }
                Ok(d)
            },
        }
    }

    /// The manifest line for this dependency: `name = "version"`.
    pub fn toml_line(&self) -> (r: String)
        ensures
            r@ == self.dep_name@ + " = \""@ + self.dep_ver@ + "\""@,
    {
        let mut r = self.dep_name.clone();
        r.append(" = \"");
        r.append(self.dep_ver.as_str());
        r.append("\"");
        r
    }
}

/// The examples a template crate offers: where they live and their
/// file names.
#[derive(Debug)]
pub struct Examples {
    /// The crate's examples directory.
    pub path: String,
    /// The example file names.
    pub examples: Vec<String>,
}

/// A lock-file line introducing the package `dep`: it starts with
/// `name` and mentions the quoted dependency name.
pub open spec fn name_line_matches(line: Seq<char>, dep: Seq<char>) -> bool {
    is_prefix(line, "name"@) && has_substring(line, seq!['"'] + dep + seq!['"'])
}

/// The versioned directory name extracted from the lock-file line
/// following the package's `name` line: the line must start with
/// `version`, and the text between its first and last quote is the
/// version, giving `dep-version`.
pub open spec fn version_extract(line: Seq<char>, dep: Seq<char>) -> Option<Seq<char>> {
    if !is_prefix(line, "version"@) {
        None
    } else {
        match (first_index_of(line, '"'), last_index_of(line, '"')) {
            (Some(f), Some(l)) => if f < l {
                Some(dep + "-"@ + line.subrange(f + 1, l))
            } else {
                None
            },
            _ => None,
        }
    }
}

/// Scanning the lock-file lines for the package `dep`: at the first
/// `name` line mentioning it, the next line yields the versioned
/// directory name; with no such line, or no well-formed version line
/// after it, nothing.
pub open spec fn dep_dir_from(lines: Seq<Seq<char>>, dep: Seq<char>) -> Option<Seq<char>>
    decreases lines.len(),
{
    if lines.len() == 0 {
        None
    } else if name_line_matches(lines[0], dep) {
        if lines.len() < 2 {
            None
        } else {
            version_extract(lines[1], dep)
        }
    } else {
        dep_dir_from(lines.skip(1), dep)
    }
}

/// Extracts `dep-version` from a lock-file `version` line.
fn extract_version(line: &String, dep_name: &str) -> (r: Option<String>)
    ensures
        match r {
            Some(out) => version_extract(line@, dep_name@) == Some(out@),
            None => version_extract(line@, dep_name@) is None,
        },
{
    let chars = str_chars(line.as_str());
    let prefix = str_chars("version");
    if !starts_with_chars(&chars, &prefix) {
        return None;
    }
    let f = match find_char(&chars, '"') {
        Some(f) => f,
        None => {
            return None;
        },
    };
    let l = match rfind_char(&chars, '"') {
        Some(l) => l,
        None => {
            return None;
        },
    };
    proof {
        crate::helpers::lemma_first_index_props(line@, '"');
        crate::helpers::lemma_last_index_props(line@, '"');
    }
    if f >= l {
        return None;
    }
    let mut out = String::from_str(dep_name);
    out.append("-");
    let version = line.as_str().substring_char(f + 1, l);
    out.append(version);
    Some(out)
}

/// Scans the lines of a lock file for the first entry of the named
/// package and returns the package's versioned directory name,
/// `name-version`.
pub fn find_dep_dir(lock_lines: &Vec<String>, dep_name: &str) -> (r: Option<String>)
    ensures
        match r {
            Some(out) => dep_dir_from(
                lock_lines@.map_values(|s: String| s@),
                dep_name@,
            ) == Some(out@),
            None => dep_dir_from(lock_lines@.map_values(|s: String| s@), dep_name@) is None,
        },
{
    let ghost lines = lock_lines@.map_values(|s: String| s@);
    let name_prefix = str_chars("name");
    let mut quoted: Vec<char> = Vec::new();
    quoted.push('"');
    let dep_chars = str_chars(dep_name);
    let mut qi: usize = 0;
    while qi < dep_chars.len()
        invariant
            qi <= dep_chars@.len(),
            dep_chars@ == dep_name@,
            quoted@ == seq!['"'] + dep_name@.take(qi as int),
        decreases dep_chars@.len() - qi,
    {
        quoted.push(dep_chars[qi]);
        proof {
            assert(quoted@ =~= seq!['"'] + dep_name@.take(qi + 1 as int));
        }
        qi = qi + 1;
    }
    quoted.push('"');
    proof {
        assert(quoted@ =~= seq!['"'] + dep_name@ + seq!['"']);
        assert(lines.skip(0) =~= lines);
    }
    let mut m: usize = 0;
    while m < lock_lines.len()
        invariant
            m <= lock_lines@.len(),
            lines == lock_lines@.map_values(|s: String| s@),
            quoted@ == seq!['"'] + dep_name@ + seq!['"'],
            name_prefix@ == "name"@,
            dep_dir_from(lines.skip(m as int), dep_name@) == dep_dir_from(lines, dep_name@),
        decreases lock_lines@.len() - m,
    {
        proof {
            assert(lines.skip(m as int)[0] == lines[m as int]);
            assert(lines.skip(m as int).skip(1) =~= lines.skip(m + 1 as int));
        }
        let line_chars = str_chars(lock_lines[m].as_str());
        if starts_with_chars(&line_chars, &name_prefix) && contains_chars(&line_chars, &quoted) {
            if m + 1 >= lock_lines.len() {
                proof {
                    assert(lines.skip(m as int).len() < 2);
                }
                return None;
            }
            proof {
                assert(lines.skip(m as int)[1] == lines[m + 1]);
            }
            return extract_version(&lock_lines[m + 1], dep_name);
        }
        m = m + 1;
    }
    proof {
        assert(lines.skip(lines.len() as int) =~= Seq::<Seq<char>>::empty());
    }
    None
}

/// `s` ends in `.rs`.
pub open spec fn is_rs_name(s: Seq<char>) -> bool {
    crate::helpers::is_suffix(s, ".rs"@)
}

/// The names ending in `.rs`, kept in order.
pub open spec fn rs_filter(names: Seq<Seq<char>>) -> Seq<Seq<char>>
    decreases names.len(),
{
    if names.len() == 0 {
        Seq::<Seq<char>>::empty()
    } else {
        let rest = rs_filter(names.skip(1));
        if is_rs_name(names[0]) {
            seq![names[0]] + rest
        } else {
            rest
        }
    }
}

/// Keeps the file names that are Rust examples: those ending in `.rs`.
pub fn rust_example_names(names: &Vec<String>) -> (r: Vec<String>)
    ensures
        r@.map_values(|s: String| s@) == rs_filter(names@.map_values(|s: String| s@)),
{
    let ghost ns = names@.map_values(|s: String| s@);
    let suffix = str_chars(".rs");
    let mut r: Vec<String> = Vec::new();
    proof {
        assert(r@.map_values(|s: String| s@) =~= Seq::<Seq<char>>::empty());
        assert(ns.skip(0) =~= ns);
    }
    let mut i: usize = 0;
    while i < names.len()
        invariant
            i <= names@.len(),
            ns == names@.map_values(|s: String| s@),
            suffix@ == ".rs"@,
            r@.map_values(|s: String| s@) + rs_filter(ns.skip(i as int)) == rs_filter(ns),
        decreases names@.len() - i,
    {
        let ghost pre = r@.map_values(|s: String| s@);
        proof {
            assert(ns.skip(i as int)[0] == ns[i as int]);
            assert(ns.skip(i as int).skip(1) =~= ns.skip(i + 1 as int));
        }
        let chars = str_chars(names[i].as_str());
        if ends_with_chars(&chars, &suffix) {
            r.push(names[i].clone());
            proof {
                assert(r@.map_values(|s: String| s@) =~= pre.push(ns[i as int]));
                assert(pre.push(ns[i as int]) + rs_filter(ns.skip(i + 1 as int)) =~= pre
                    + rs_filter(ns.skip(i as int)));
            }
        }
        i = i + 1;
    }
    proof {
        assert(ns.skip(ns.len() as int) =~= Seq::<Seq<char>>::empty());
    }
    r
}

/// Whether `s` ends with `suffix`.
fn ends_with_chars(s: &Vec<char>, suffix: &Vec<char>) -> (r: bool)
    ensures
        r == crate::helpers::is_suffix(s@, suffix@),
{
    if suffix.len() > s.len() {
        return false;
    }
    let start: usize = s.len() - suffix.len();
    let mut i: usize = 0;
    while i < suffix.len()
        invariant
            i <= suffix@.len(),
            start == s@.len() - suffix@.len(),
            s@.len() <= usize::MAX,
            forall|k: int| 0 <= k < i ==> s@[start + k] == suffix@[k],
        decreases suffix@.len() - i,
    {
        if s[start + i] != suffix[i] {
            proof {
                assert(s@.skip(start as int)[i as int] != suffix@[i as int]);
            }
            return false;
        }
        i = i + 1;
    }
    proof {
        assert(s@.skip(start as int) =~= suffix@);
    }
    true
}

} // verus!
