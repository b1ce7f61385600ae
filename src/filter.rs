//! Project-type detection and the admission rule for entries.

use vstd::prelude::*;
use crate::entry::{Entry, label};
use crate::text::{occurs, str_contains};

verus! {

/// Number of known ecosystems.
pub const RULE_COUNT: usize = 5;

/// Name of the `i`-th ecosystem, in detection order.
pub open spec fn rule_name(i: int) -> Seq<char> {
    if i == 0 { "Node.js"@ } else if i == 1 { "Python"@ } else if i == 2 { "Rust"@ }
    else if i == 3 { "Java"@ } else { "Go"@ }
}

/// The files whose presence marks the `i`-th ecosystem.
pub open spec fn rule_markers(i: int) -> Seq<Seq<char>> {
    if i == 0 { seq!["package.json"@] }
    else if i == 1 { seq!["requirements.txt"@, "pyproject.toml"@] }
    else if i == 2 { seq!["Cargo.toml"@] }
    else if i == 3 { seq!["pom.xml"@, "build.gradle"@] }
    else { seq!["go.mod"@] }
}

/// The patterns conventionally left out for the `i`-th ecosystem.
pub open spec fn rule_excludes(i: int) -> Seq<Seq<char>> {
    if i == 0 { seq!["node_modules"@, "dist"@, ".next"@, "build"@] }
    else if i == 1 { seq!["venv"@, "__pycache__"@, ".pytest_cache"@, "*.pyc"@] }
    else if i == 2 { seq!["target"@, "debug"@, "release"@] }
    else if i == 3 { seq!["target"@, "build"@, "*.class"@] }
    else { seq!["vendor"@, "bin"@] }
}

/// The views of a list of strings.
pub open spec fn views(v: Seq<String>) -> Seq<Seq<char>> {
    v.map_values(|s: String| s@)
}

/// `m` is one of the file names in `present`.
pub open spec fn present_in(present: Seq<String>, m: Seq<char>) -> bool {
    exists|j: int| 0 <= j < present.len() && #[trigger] present[j]@ == m
}

/// Some marker of the `i`-th ecosystem is present.
pub open spec fn rule_matches(present: Seq<String>, i: int) -> bool {
    exists|k: int| 0 <= k < rule_markers(i).len() && present_in(present, #[trigger] rule_markers(i)[k])
}

/// The first ecosystem, from position `i` on, with a marker present.
pub open spec fn first_match(present: Seq<String>, i: int) -> Option<int>
    decreases RULE_COUNT - i,
{
    if i >= RULE_COUNT {
        None
    } else if rule_matches(present, i) {
        Some(i)
    } else {
        first_match(present, i + 1)
    }
}

/// The ecosystem detected in a directory holding the files `present`.
pub open spec fn detected(present: Seq<String>) -> Option<int> {
    first_match(present, 0)
}

/// A detected ecosystem: its name and the patterns it leaves out.
#[derive(Debug)]
pub struct ProjectType {
    pub name: String,
    pub excludes: Vec<String>,
}

impl ProjectType {
    /// The patterns this ecosystem leaves out.
    pub open spec fn exclude_view(&self) -> Seq<Seq<char>> {
        views(self.excludes@)
    }

    /// This is the `i`-th ecosystem of the table.
    pub open spec fn is_rule(&self, i: int) -> bool {
        &&& self.name@ == rule_name(i)
        &&& self.exclude_view() == rule_excludes(i)
    }

    fn new(name: &str, excludes: Vec<&str>) -> (r: ProjectType)
        ensures
            r.name@ == name@,
            r.exclude_view() == excludes@.map_values(|s: &str| s@),
    {
        let mut v: Vec<String> = Vec::new();
        let mut i: usize = 0;
        while i < excludes.len()
            invariant
                i <= excludes.len(),
                v@.len() == i,
                views(v@) == excludes@.subrange(0, i as int).map_values(|s: &str| s@),
            decreases excludes.len() - i,
        {
            let ghost prev = v@;
            v.push(String::from_str(excludes[i]));
            i = i + 1;
            assert(v@ =~= prev.push(v@[i - 1]));
            assert forall|k: int| 0 <= k < i implies #[trigger] views(v@)[k]
                == excludes@.subrange(0, i as int).map_values(|s: &str| s@)[k] by {
                if k < i - 1 {
                    assert(views(prev)[k] == excludes@.subrange(0, i - 1).map_values(|s: &str| s@)[k]);
                }
            }
            assert(views(v@) =~= excludes@.subrange(0, i as int).map_values(|s: &str| s@));
        }
        assert(excludes@.subrange(0, i as int) =~= excludes@);
        ProjectType { name: String::from_str(name), excludes: v }
    }

    /// The patterns this ecosystem leaves out.
    pub fn excludes(&self) -> (r: &Vec<String>)
        ensures
            views(r@) == self.exclude_view(),
    {
        &self.excludes
    }
}

fn has_file(present: &Vec<String>, m: &str) -> (r: bool)
    ensures
        r == present_in(present@, m@),
{
    let target = String::from_str(m);
    let mut j: usize = 0;
    while j < present.len()
        invariant
            j <= present.len(),
            target@ == m@,
            forall|k: int| 0 <= k < j ==> present@[k]@ != m@,
        decreases present.len() - j,
    {
        if present[j] == target {
            return true;
        }
        j = j + 1;
    }
    false
}

fn rule_present(present: &Vec<String>, i: usize) -> (r: bool)
    requires
        i < RULE_COUNT,
    ensures
        r == rule_matches(present@, i as int),
{
    let ghost ms = rule_markers(i as int);
    let r = if i == 0 {
        has_file(present, "package.json")
    } else if i == 1 {
        has_file(present, "requirements.txt") || has_file(present, "pyproject.toml")
    } else if i == 2 {
        has_file(present, "Cargo.toml")
    } else if i == 3 {
        has_file(present, "pom.xml") || has_file(present, "build.gradle")
    } else {
        has_file(present, "go.mod")
    };
    proof {
        if r {
            if present_in(present@, ms[0]) {
            } else {
                assert(present_in(present@, ms[1]));
            }
        }
    }
    r
}

fn rule_type(i: usize) -> (r: ProjectType)
    requires
        i < RULE_COUNT,
    ensures
        r.is_rule(i as int),
{
    let mut ex: Vec<&str> = Vec::new();
    let r = if i == 0 {
        ex.push("node_modules"); ex.push("dist"); ex.push(".next"); ex.push("build");
        ProjectType::new("Node.js", ex)
    } else if i == 1 {
        ex.push("venv"); ex.push("__pycache__"); ex.push(".pytest_cache"); ex.push("*.pyc");
        ProjectType::new("Python", ex)
    } else if i == 2 {
        ex.push("target"); ex.push("debug"); ex.push("release");
        ProjectType::new("Rust", ex)
    } else if i == 3 {
        ex.push("target"); ex.push("build"); ex.push("*.class");
        ProjectType::new("Java", ex)
    } else {
        ex.push("vendor"); ex.push("bin");
        ProjectType::new("Go", ex)
    };
    assert(r.exclude_view() =~= rule_excludes(i as int));
    r
}

/// Detects the ecosystem of a directory from the names of the marker files
/// found in it: the first ecosystem of the table with a marker present.
pub fn detect_project_type(present: &Vec<String>) -> (r: Option<ProjectType>)
    ensures
        match detected(present@) {
            None => r is None,
            Some(i) => r is Some && r->Some_0.is_rule(i),
        },
{
    let mut i: usize = 0;
    while i < RULE_COUNT
        invariant
            i <= RULE_COUNT,
            detected(present@) == first_match(present@, i as int),
        decreases RULE_COUNT - i,
    {
        if rule_present(present, i) {
            return Some(rule_type(i));
        }
        i = i + 1;
    }
    None
}

/// Every marker file name that detection looks for, in table order.
pub fn marker_files() -> (r: Vec<String>)
    ensures
        forall|i: int, k: int| 0 <= i < RULE_COUNT && 0 <= k < rule_markers(i).len()
            ==> present_in(r@, #[trigger] rule_markers(i)[k]),
{
    let mut r: Vec<String> = Vec::new();
    r.push(String::from_str("package.json"));
    r.push(String::from_str("requirements.txt"));
    r.push(String::from_str("pyproject.toml"));
    r.push(String::from_str("Cargo.toml"));
    r.push(String::from_str("pom.xml"));
    r.push(String::from_str("build.gradle"));
    r.push(String::from_str("go.mod"));
    assert forall|i: int, k: int| 0 <= i < RULE_COUNT && 0 <= k < rule_markers(i).len()
        implies present_in(r@, #[trigger] rule_markers(i)[k]) by {
        if i == 0 { assert(r@[0]@ == rule_markers(i)[k]); }
        else if i == 1 { if k == 0 { assert(r@[1]@ == rule_markers(i)[k]); } else { assert(r@[2]@ == rule_markers(i)[k]); } }
        else if i == 2 { assert(r@[3]@ == rule_markers(i)[k]); }
        else if i == 3 { if k == 0 { assert(r@[4]@ == rule_markers(i)[k]); } else { assert(r@[5]@ == rule_markers(i)[k]); } }
        else { assert(r@[6]@ == rule_markers(i)[k]); }
    }
    r
}

/// The base name starts with a dot.
pub open spec fn hidden(name: Option<String>) -> bool {
    match name {
        Some(n) => n@.len() > 0 && n@[0] == '.',
        None => false,
    }
}

/// Some pattern of `pats` occurs in `path`.
pub open spec fn matches_any(path: Seq<char>, pats: Seq<Seq<char>>) -> bool {
    exists|k: int| 0 <= k < pats.len() && occurs(path, #[trigger] pats[k])
}

/// The patterns in force: the caller's, then the detected ecosystem's.
pub open spec fn effective_excludes(user: Seq<String>, project: Option<ProjectType>) -> Seq<Seq<char>> {
    match project {
        Some(p) => views(user) + p.exclude_view(),
        None => views(user),
    }
}

/// An entry passes the filter: it is not hidden and its path holds none of
/// the patterns.
pub open spec fn passes(e: Entry, excl: Seq<Seq<char>>) -> bool {
    !hidden(e.name) && !matches_any(e.path@, excl)
}

/// True when the base name starts with a dot; an entry without a base name
/// is not hidden.
pub fn is_hidden(name: &Option<String>) -> (r: bool)
    ensures
        r == hidden(*name),
{
    match name {
        Some(n) => {
            let s = n.as_str();
            s.unicode_len() > 0 && s.get_char(0) == '.'
        },
        None => false,
    }
}

pub(crate) fn contains_any(path: &String, pats: &Vec<String>) -> (r: bool)
    ensures
        r == matches_any(path@, views(pats@)),
{
    let mut k: usize = 0;
    while k < pats.len()
        invariant
            k <= pats.len(),
            forall|j: int| 0 <= j < k ==> !occurs(path@, #[trigger] views(pats@)[j]),
        decreases pats.len() - k,
    {
        if str_contains(path.as_str(), pats[k].as_str()) {
            assert(occurs(path@, views(pats@)[k as int]));
            return true;
        }
        k = k + 1;
    }
    false
}

/// Decides whether an entry is admitted: not hidden, whatever the patterns,
/// and its full path holds, as a plain substring, none of the caller's
/// patterns nor those of the ecosystem detected at the traversal root.
pub fn should_include(entry: &Entry, exclude_patterns: &Vec<String>, project: &Option<ProjectType>) -> (r: bool)
    ensures
        r == passes(*entry, effective_excludes(exclude_patterns@, *project)),
{
    if is_hidden(&entry.name) {
        return false;
    }
    let user = contains_any(&entry.path, exclude_patterns);
    match project {
        Some(p) => {
            let auto = contains_any(&entry.path, p.excludes());
            proof {
                let all = views(exclude_patterns@) + p.exclude_view();
                let n = views(exclude_patterns@).len();
                if matches_any(entry.path@, all) {
                    let k = choose|k: int| 0 <= k < all.len() && occurs(entry.path@, #[trigger] all[k]);
                    if k < n {
                        assert(all[k] == views(exclude_patterns@)[k]);
                    } else {
                        assert(all[k] == p.exclude_view()[k - n]);
                    }
                }
                if user {
                    let k = choose|k: int| 0 <= k < n && occurs(entry.path@, #[trigger] views(exclude_patterns@)[k]);
                    assert(all[k] == views(exclude_patterns@)[k]);
                }
                if auto {
                    let k = choose|k: int| 0 <= k < p.exclude_view().len() && occurs(entry.path@, #[trigger] p.exclude_view()[k]);
                    assert(all[k + n] == p.exclude_view()[k]);
                }
            }
            !(user || auto)
        },
        None => !user,
    }
}

/// A directory whose only file is a marker of one ecosystem is detected as
/// that ecosystem and no other.
pub proof fn lemma_single_marker_detected(present: Seq<String>, i: int, k: int)
    requires
        0 <= i < RULE_COUNT,
        0 <= k < rule_markers(i).len(),
        present.len() == 1,
        present[0]@ == rule_markers(i)[k],
    ensures
        detected(present) == Some(i),
{
    reveal_strlit("package.json");
    reveal_strlit("requirements.txt");
    reveal_strlit("pyproject.toml");
    reveal_strlit("Cargo.toml");
    reveal_strlit("pom.xml");
    reveal_strlit("build.gradle");
    reveal_strlit("go.mod");
    assert(present_in(present, rule_markers(i)[k]));
    assert forall|j: int, l: int| 0 <= j < RULE_COUNT && 0 <= l < rule_markers(j).len()
        && present_in(present, #[trigger] rule_markers(j)[l]) implies j == i by {
        let q = choose|q: int| 0 <= q < present.len() && #[trigger] present[q]@ == rule_markers(j)[l];
        assert(q == 0);
        assert(rule_markers(j)[l] == rule_markers(i)[k]);
        if j != i {
            assert(rule_markers(j)[l].len() != rule_markers(i)[k].len()
                || rule_markers(j)[l][0] != rule_markers(i)[k][0]
                || rule_markers(j)[l][1] != rule_markers(i)[k][1]);
        }
    }
    assert(rule_matches(present, i));
    assert(!rule_matches(present, 0) || i == 0);
    assert(!rule_matches(present, 1) || i == 1);
    assert(!rule_matches(present, 2) || i == 2);
    assert(!rule_matches(present, 3) || i == 3);
    assert(!rule_matches(present, 4) || i == 4);
    reveal_with_fuel(first_match, 6);
}

/// A directory that holds no marker file of any ecosystem is detected as
/// none.
pub proof fn lemma_no_marker_undetected(present: Seq<String>)
    requires
        forall|i: int, k: int| 0 <= i < RULE_COUNT && 0 <= k < rule_markers(i).len()
            ==> !present_in(present, #[trigger] rule_markers(i)[k]),
    ensures
        detected(present) is None,
{
    assert(!rule_matches(present, 0));
    assert(!rule_matches(present, 1));
    assert(!rule_matches(present, 2));
    assert(!rule_matches(present, 3));
    assert(!rule_matches(present, 4));
    reveal_with_fuel(first_match, 6);
}

/// A hidden entry never passes the filter, whatever the patterns.
pub proof fn lemma_hidden_never_passes(e: Entry, excl: Seq<Seq<char>>)
    requires
        hidden(e.name),
    ensures
        !passes(e, excl),
{
}

} // verus!
