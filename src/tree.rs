//! Building the rendering and the adjacency list of a traversal.

use vstd::prelude::*;
use vstd::arithmetic::div_mod::lemma_div_denominator;
use crate::entry::{Entry, EntryKind, label, well_formed};
use crate::filter::{ProjectType, effective_excludes, hidden, matches_any, passes, should_include, contains_any, views};
use crate::style::{Tint, bold_blue, painted, paint, paint_bold_blue};
use crate::text::{occurs, decimal, digit_char, push_decimal, push_digit, repeated, push_repeated};

verus! {

/// `1024` to the power `k`.
pub open spec fn pow1024(k: nat) -> nat
    decreases k,
{
    if k == 0 { 1 } else { 1024 * pow1024((k - 1) as nat) }
}

/// Index of the largest unit, from `k` up to the last (PB), that `n` bytes
/// reach: each step up divides by 1024 once more.
pub open spec fn unit_from(n: nat, k: nat) -> nat
    decreases 5 - k,
{
    if k < 5 && n >= pow1024(k + 1) { unit_from(n, k + 1) } else { k }
}

/// Name of the `k`-th unit.
pub open spec fn unit_name(k: nat) -> Seq<char> {
    if k == 0 { "B"@ } else if k == 1 { "KB"@ } else if k == 2 { "MB"@ }
    else if k == 3 { "GB"@ } else if k == 4 { "TB"@ } else { "PB"@ }
}

/// `a / b` rounded to the nearest integer, ties to the even one.
pub open spec fn round_half_even(a: nat, b: nat) -> nat
    recommends
        b > 0,
{
    let q = a / b;
    let r = a % b;
    if 2 * r > b || (2 * r == b && q % 2 == 1) { q + 1 } else { q }
}

/// The human-readable form of a byte count: whole bytes as `"<n> B"`, any
/// larger unit with exactly two fractional digits.
pub open spec fn size_text(n: nat) -> Seq<char> {
    let k = unit_from(n, 0);
    if k == 0 {
        decimal(n) + " B"@
    } else {
        let h = round_half_even(n * 100, pow1024(k));
        decimal(h / 100) + "."@ + seq![digit_char((h / 10) % 10), digit_char(h % 10)] + " "@
            + unit_name(k)
    }
}

proof fn lemma_pow1024_pos(k: nat)
    ensures
        pow1024(k) >= 1,
        k <= 5 ==> pow1024(k) <= 0x4_0000_0000_0000,
    decreases k,
{
    if k > 0 {
        lemma_pow1024_pos((k - 1) as nat);
    }
    if k <= 5 {
        reveal_with_fuel(pow1024, 6);
    }
}

fn push_unit(out: &mut String, k: usize)
    ensures
        final(out)@ == old(out)@ + unit_name(k as nat),
{
    if k == 0 { out.append("B"); } else if k == 1 { out.append("KB"); }
    else if k == 2 { out.append("MB"); } else if k == 3 { out.append("GB"); }
    else if k == 4 { out.append("TB"); } else { out.append("PB"); }
}

/// Formats a byte count, dividing by 1024 while the value reaches 1024
/// and a larger unit exists.
pub fn format_size(size: u64) -> (r: String)
    ensures
        r@ == size_text(size as nat),
{
    let ghost n = size as nat;
    let mut k: usize = 0;
    let mut q: u64 = size;
    let mut d: u128 = 1;
    proof { lemma_pow1024_pos(0); }
    while q >= 1024 && k < 5
        invariant
            k <= 5,
            d as nat == pow1024(k as nat),
            q as nat == n / pow1024(k as nat),
            unit_from(n, 0) == unit_from(n, k as nat),
        decreases 5 - k,
    {
        proof {
            lemma_pow1024_pos(k as nat);
            lemma_pow1024_pos((k + 1) as nat);
            let p = pow1024(k as nat);
            assert(n / p >= 1024 ==> n >= 1024 * p) by (nonlinear_arith)
                requires p > 0;
            lemma_div_denominator(n as int, p as int, 1024);
            assert(p * 1024 == pow1024((k + 1) as nat));
        }
        q = q / 1024;
        d = d * 1024;
        k = k + 1;
    }
    proof {
        lemma_pow1024_pos(k as nat);
        lemma_pow1024_pos((k + 1) as nat);
        let p = pow1024(k as nat);
        if k < 5 {
            assert(n >= 1024 * p ==> n / p >= 1024) by (nonlinear_arith)
                requires p > 0;
            assert(1024 * p == pow1024((k + 1) as nat));
        }
    }
    let mut out = String::new();
    if k == 0 {
        push_decimal(&mut out, size as u128);
        out.append(" B");
    } else {
        let a: u128 = size as u128 * 100;
        let qq: u128 = a / d;
        let rr: u128 = a % d;
        let h: u128 = if 2 * rr > d || (2 * rr == d && qq % 2 == 1) { qq + 1 } else { qq };
        proof {
            assert(qq <= a) by (nonlinear_arith) requires d >= 1, qq == a / d, a >= 0;
        }
        push_decimal(&mut out, h / 100);
        out.append(".");
        push_digit(&mut out, (h / 10) % 10);
        push_digit(&mut out, h % 10);
        out.append(" ");
        push_unit(&mut out, k);
    }
    proof { reveal_strlit(" B"); reveal_strlit("."); reveal_strlit(" "); }
    assert(out@ =~= size_text(n));
    out
}

/// The traversal's two outputs: the text rendering and the
/// (parent, child) name pairs, in traversal order.
pub struct TreeData {
    pub terminal_output: String,
    pub structure: Vec<(String, String)>,
}

/// Counters over the shown entries.
pub struct TreeStats {
    pub total_size: u64,
    pub total_files: usize,
    pub total_dirs: usize,
}

/// Entry `i` and all the directories above it pass the filter: a walk that
/// prunes what fails never reaches it otherwise.
pub open spec fn admitted(ls: Seq<Entry>, excl: Seq<Seq<char>>, i: int) -> bool
    decreases i,
{
    if i <= 0 {
        passes(ls[0], excl)
    } else if ls[i].parent < i {
        passes(ls[i], excl) && admitted(ls, excl, ls[i].parent as int)
    } else {
        false
    }
}

/// Where inclusion patterns are given, only directories and paths holding one of them
/// stay.
pub open spec fn include_ok(e: Entry, incl: Seq<Seq<char>>) -> bool {
    incl.len() == 0 || e.kind == EntryKind::Dir || matches_any(e.path@, incl)
}

/// The settings of one traversal, as views.
pub struct Settings {
    pub excl: Seq<Seq<char>>,
    pub incl: Seq<Seq<char>>,
    pub max_depth: nat,
}

/// Entry `i` gets a line of the rendering: it is not the root, it is
/// admitted, within the depth ceiling (0 for none), and kept by the inclusion
/// patterns.
pub open spec fn shown(ls: Seq<Entry>, st: Settings, i: int) -> bool {
    &&& 0 < i < ls.len()
    &&& admitted(ls, st.excl, i)
    &&& (st.max_depth == 0 || ls[i].depth <= st.max_depth)
    &&& include_ok(ls[i], st.incl)
}

/// Entry `j` is `i` or lies below it.
pub open spec fn descends(ls: Seq<Entry>, j: int, i: int) -> bool
    decreases j,
{
    if j == i {
        true
    } else if j < i || j <= 0 {
        false
    } else if ls[j].parent < j {
        descends(ls, ls[j].parent as int, i)
    } else {
        false
    }
}

/// The bytes entry `j` adds to the size of `i`: its length when it is an
/// admitted file at or below `i`.
pub open spec fn counted(ls: Seq<Entry>, excl: Seq<Seq<char>>, i: int, j: int) -> nat {
    if admitted(ls, excl, j) && ls[j].kind == EntryKind::File && descends(ls, j, i) {
        ls[j].len as nat
    } else {
        0
    }
}

/// The bytes of the first `m` entries that count toward `i`.
pub open spec fn subtree_sum(ls: Seq<Entry>, excl: Seq<Seq<char>>, i: int, m: int) -> nat
    decreases m,
{
    if m <= 0 { 0 } else { subtree_sum(ls, excl, i, m - 1) + counted(ls, excl, i, m - 1) }
}

/// `n` held to the range of `u64`.
pub open spec fn clamp64(n: nat) -> nat {
    if n > u64::MAX { u64::MAX as nat } else { n }
}

/// The size of a directory: its admitted files, at any depth, summed
/// (saturating at the largest `u64`).
pub open spec fn dir_size(ls: Seq<Entry>, excl: Seq<Seq<char>>, i: int) -> nat {
    clamp64(subtree_sum(ls, excl, i, ls.len() as int))
}

/// The size shown beside an entry.
pub open spec fn entry_size(ls: Seq<Entry>, excl: Seq<Seq<char>>, i: int) -> nat {
    if ls[i].kind == EntryKind::Dir { dir_size(ls, excl, i) } else { ls[i].len as nat }
}

/// No shown entry after `i` has the same parent.
pub open spec fn last_sibling(ls: Seq<Entry>, st: Settings, i: int) -> bool {
    forall|j: int| i < j < ls.len() && #[trigger] shown(ls, st, j) ==> ls[j].parent != ls[i].parent
}

/// The branch glyph of a line.
pub open spec fn connector(last: bool) -> Seq<char> {
    if last { "└── "@ } else { "├── "@ }
}

/// The indentation unit, one per level below the first.
pub open spec fn indent_unit() -> Seq<char> {
    "│   "@
}

/// The line of entry `i`.
pub open spec fn line(ls: Seq<Entry>, st: Settings, i: int) -> Seq<char> {
    let tint = if ls[i].kind == EntryKind::Dir { Tint::Blue } else { Tint::White };
    repeated(indent_unit(), (ls[i].depth - 1) as nat) + connector(last_sibling(ls, st, i))
        + painted(tint, label(ls[i])) + " ("@ + painted(Tint::Green, size_text(entry_size(ls, st.excl, i)))
        + ")\n"@
}

/// The lines of the shown entries among the first `m`.
pub open spec fn lines_upto(ls: Seq<Entry>, st: Settings, m: int) -> Seq<char>
    decreases m,
{
    if m <= 0 {
        Seq::empty()
    } else if shown(ls, st, m - 1) {
        lines_upto(ls, st, m - 1) + line(ls, st, m - 1)
    } else {
        lines_upto(ls, st, m - 1)
    }
}

/// The (parent, child) name pairs of the shown entries among the first `m`.
pub open spec fn pairs_upto(ls: Seq<Entry>, st: Settings, m: int) -> Seq<(Seq<char>, Seq<char>)>
    decreases m,
{
    if m <= 0 {
        Seq::empty()
    } else if shown(ls, st, m - 1) {
        pairs_upto(ls, st, m - 1).push(pair_of(ls, m - 1))
    } else {
        pairs_upto(ls, st, m - 1)
    }
}

/// How many of the first `m` entries are shown and of kind `k`.
pub open spec fn count_kind(ls: Seq<Entry>, st: Settings, k: EntryKind, m: int) -> nat
    decreases m,
{
    if m <= 0 {
        0
    } else if shown(ls, st, m - 1) && ls[m - 1].kind == k {
        count_kind(ls, st, k, m - 1) + 1
    } else {
        count_kind(ls, st, k, m - 1)
    }
}

/// How many of the first `m` entries are shown.
pub open spec fn count_shown(ls: Seq<Entry>, st: Settings, m: int) -> nat
    decreases m,
{
    if m <= 0 {
        0
    } else if shown(ls, st, m - 1) {
        count_shown(ls, st, m - 1) + 1
    } else {
        count_shown(ls, st, m - 1)
    }
}

/// The byte lengths of the shown files among the first `m`.
pub open spec fn files_sum(ls: Seq<Entry>, st: Settings, m: int) -> nat
    decreases m,
{
    if m <= 0 {
        0
    } else if shown(ls, st, m - 1) && ls[m - 1].kind == EntryKind::File {
        files_sum(ls, st, m - 1) + ls[m - 1].len as nat
    } else {
        files_sum(ls, st, m - 1)
    }
}

/// The stats of a listing.
pub open spec fn stats_of(ls: Seq<Entry>, st: Settings, s: TreeStats) -> bool {
    &&& s.total_size == clamp64(files_sum(ls, st, ls.len() as int))
    &&& s.total_files == count_kind(ls, st, EntryKind::File, ls.len() as int)
    &&& s.total_dirs == count_kind(ls, st, EntryKind::Dir, ls.len() as int)
}

/// The first line, naming the detected ecosystem, if any.
pub open spec fn header(project: Option<ProjectType>) -> Seq<char> {
    match project {
        Some(p) => "Detected project type: "@ + bold_blue(p.name@)
            + " (auto-excluding common build artifacts)\n\n"@,
        None => Seq::empty(),
    }
}

/// The root's line, with its aggregate size.
pub open spec fn root_line(size: nat) -> Seq<char> {
    bold_blue("."@) + " ("@ + painted(Tint::Green, size_text(size)) + ")\n"@
}

/// The summary block.
pub open spec fn summary(total: nat, files: nat, dirs: nat) -> Seq<char> {
    "\n"@ + painted(Tint::Yellow, "Summary:"@) + "\n"@ + "  Total size: "@
        + painted(Tint::Green, size_text(total)) + "\n"@ + "  Files: "@ + decimal(files) + "\n"@
        + "  Directories: "@ + decimal(dirs) + "\n"@
}

/// The views of the name pairs.
pub open spec fn pair_views(v: Seq<(String, String)>) -> Seq<(Seq<char>, Seq<char>)> {
    v.map_values(|p: (String, String)| (p.0@, p.1@))
}

/// Admission of every entry, parents before children.
fn admission(entries: &Vec<Entry>, exclude_patterns: &Vec<String>, project: &Option<ProjectType>) -> (adm: Vec<bool>)
    requires
        well_formed(entries@),
    ensures
        adm@.len() == entries@.len(),
        forall|k: int| 0 <= k < adm@.len() ==> adm@[k] == admitted(entries@, effective_excludes(exclude_patterns@, *project), k),
{
    let ghost excl = effective_excludes(exclude_patterns@, *project);
    let mut adm: Vec<bool> = Vec::new();
    let mut i: usize = 0;
    while i < entries.len()
        invariant
            well_formed(entries@),
            excl == effective_excludes(exclude_patterns@, *project),
            i <= entries@.len(),
            adm@.len() == i,
            forall|k: int| 0 <= k < i ==> adm@[k] == admitted(entries@, excl, k),
        decreases entries.len() - i,
    {
        let ok = should_include(&entries[i], exclude_patterns, project);
        let a = if i == 0 { ok } else { ok && adm[entries[i].parent] };
        proof {
            assert(ok == passes(entries@[i as int], excl));
            if i > 0 {
                let pi = entries@[i as int].parent as int;
                assert(pi < i);
                assert(adm@[pi] == admitted(entries@, excl, pi));
            }
        }
        assert(a == admitted(entries@, excl, i as int));
        adm.push(a);
        i = i + 1;
    }
    adm
}

proof fn lemma_chain(ls: Seq<Entry>, j: int, cur: int, k: int)
    requires
        well_formed(ls),
        0 <= j < ls.len(),
        descends(ls, j, cur),
        descends(ls, j, k),
        k < cur,
    ensures
        descends(ls, cur, k),
    decreases j,
{
    if j != cur {
        assert(ls[j].parent < j);
        lemma_chain(ls, ls[j].parent as int, cur, k);
    }
}

/// The aggregate size of every entry: each admitted file's length is
/// added to the file itself and to every directory above it.
fn calculate_dir_sizes(entries: &Vec<Entry>, adm: &Vec<bool>, Ghost(excl): Ghost<Seq<Seq<char>>>) -> (sizes: Vec<u64>)
    requires
        well_formed(entries@),
        adm@.len() == entries@.len(),
        forall|k: int| 0 <= k < adm@.len() ==> adm@[k] == admitted(entries@, excl, k),
    ensures
        sizes@.len() == entries@.len(),
        forall|k: int| 0 <= k < sizes@.len() ==> sizes@[k] as nat == dir_size(entries@, excl, k),
{
    let ghost ls = entries@;
    let n = entries.len();
    let mut sizes: Vec<u64> = Vec::new();
    let mut i: usize = 0;
    while i < n
        invariant
            n == ls.len(),
            i <= n,
            sizes@.len() == i,
            forall|k: int| 0 <= k < i ==> sizes@[k] == 0,
        decreases n - i,
    {
        sizes.push(0);
        i = i + 1;
    }
    let mut j: usize = 0;
    while j < n
        invariant
            ls == entries@,
            well_formed(ls),
            n == ls.len(),
            j <= n,
            adm@.len() == n,
            forall|k: int| 0 <= k < n ==> adm@[k] == admitted(ls, excl, k),
            sizes@.len() == n,
            forall|k: int| 0 <= k < n ==> sizes@[k] as nat == clamp64(#[trigger] subtree_sum(ls, excl, k, j as int)),
        decreases n - j,
    {
        if adm[j] && entries[j].kind == EntryKind::File {
            let x = entries[j].len;
            let mut cur: usize = j;
            loop
                invariant_except_break
                    forall|k: int| 0 <= k < n ==> sizes@[k] as nat == clamp64(
                        #[trigger] subtree_sum(ls, excl, k, j as int)
                            + if descends(ls, j as int, k) && k > cur { x as nat } else { 0 },
                    ),
                invariant
                    ls == entries@,
                    well_formed(ls),
                    n == ls.len(),
                    j < n,
                    cur <= j,
                    descends(ls, j as int, cur as int),
                    sizes@.len() == n,
                ensures
                    sizes@.len() == n,
                    forall|k: int| 0 <= k < n ==> sizes@[k] as nat == clamp64(
                        #[trigger] subtree_sum(ls, excl, k, j as int)
                            + if descends(ls, j as int, k) { x as nat } else { 0 },
                    ),
                decreases cur,
            {
                let ghost old_sizes = sizes@;
                let v = sizes[cur];
                let w = if v > u64::MAX - x { u64::MAX } else { v + x };
                sizes.set(cur, w);
                assert forall|k: int| 0 <= k < n implies sizes@[k] as nat == clamp64(
                    #[trigger] subtree_sum(ls, excl, k, j as int)
                        + if descends(ls, j as int, k) && k >= cur { x as nat } else { 0 }) by {
                    if k != cur {
                        assert(sizes@[k] == old_sizes[k]);
                    }
                }
                if cur == 0 {
                    break;
                }
                let p = entries[cur].parent;
                proof {
                    assert(ls[cur as int].parent < cur);
                    assert forall|k: int| 0 <= k < n && descends(ls, j as int, k) && p < k < cur
                        implies false by {
                        lemma_chain(ls, j as int, cur as int, k);
                        assert(descends(ls, p as int, k));
                    }
                    assert(descends(ls, p as int, p as int));
                    assert(descends(ls, cur as int, p as int));
                    assert(descends(ls, j as int, p as int)) by {
                        lemma_descends_trans(ls, j as int, cur as int, p as int);
                    }
                }
                cur = p;
            }
            proof {
                assert forall|k: int| 0 <= k < n implies sizes@[k] as nat == clamp64(
                    #[trigger] subtree_sum(ls, excl, k, j + 1)) by {
                    assert(subtree_sum(ls, excl, k, j + 1) == subtree_sum(ls, excl, k, j as int)
                        + counted(ls, excl, k, j as int));
                }
            }
        } else {
            proof {
                assert forall|k: int| 0 <= k < n implies sizes@[k] as nat == clamp64(
                    #[trigger] subtree_sum(ls, excl, k, j + 1)) by {
                    assert(subtree_sum(ls, excl, k, j + 1) == subtree_sum(ls, excl, k, j as int)
                        + counted(ls, excl, k, j as int));
                }
            }
        }
        j = j + 1;
    }
    sizes
}

proof fn lemma_descends_trans(ls: Seq<Entry>, a: int, b: int, c: int)
    requires
        well_formed(ls),
        0 <= a < ls.len(),
        descends(ls, a, b),
        descends(ls, b, c),
    ensures
        descends(ls, a, c),
    decreases a,
{
    if a != b {
        assert(ls[a].parent < a);
        lemma_descends_trans(ls, ls[a].parent as int, b, c);
    }
}

/// Whether no shown entry after `i` shares its parent.
fn is_last_in_directory(entries: &Vec<Entry>, sh: &Vec<bool>, i: usize, Ghost(st): Ghost<Settings>) -> (r: bool)
    requires
        i < entries@.len(),
        sh@.len() == entries@.len(),
        forall|k: int| 0 <= k < sh@.len() ==> sh@[k] == shown(entries@, st, k),
    ensures
        r == last_sibling(entries@, st, i as int),
{
    let n = entries.len();
    let mut j: usize = i + 1;
    while j < n
        invariant
            i < j <= entries@.len(),
            n == entries@.len(),
            sh@.len() == entries@.len(),
            forall|k: int| 0 <= k < sh@.len() ==> sh@[k] == shown(entries@, st, k),
            forall|k: int| i < k < j && #[trigger] shown(entries@, st, k) ==> entries@[k].parent != entries@[i as int].parent,
        decreases n - j,
    {
        if sh[j] && entries[j].parent == entries[i].parent {
            return false;
        }
        j = j + 1;
    }
    true
}

/// Counts the shown files and directories and sums the files' lengths
/// (saturating at the largest `u64`).
fn calculate_tree_stats(entries: &Vec<Entry>, sh: &Vec<bool>, Ghost(st): Ghost<Settings>) -> (r: TreeStats)
    requires
        sh@.len() == entries@.len(),
        forall|k: int| 0 <= k < sh@.len() ==> sh@[k] == shown(entries@, st, k),
    ensures
        stats_of(entries@, st, r),
{
    let mut stats = TreeStats { total_size: 0, total_files: 0, total_dirs: 0 };
    let mut i: usize = 0;
    while i < entries.len()
        invariant
            i <= entries@.len(),
            sh@.len() == entries@.len(),
            forall|k: int| 0 <= k < sh@.len() ==> sh@[k] == shown(entries@, st, k),
            stats.total_size == clamp64(files_sum(entries@, st, i as int)),
            stats.total_files == count_kind(entries@, st, EntryKind::File, i as int),
            stats.total_dirs == count_kind(entries@, st, EntryKind::Dir, i as int),
            stats.total_files <= i,
            stats.total_dirs <= i,
        decreases entries.len() - i,
    {
        if sh[i] {
            if entries[i].kind == EntryKind::File {
                stats.total_files = stats.total_files + 1;
                let x = entries[i].len;
                stats.total_size = if stats.total_size > u64::MAX - x { u64::MAX } else { stats.total_size + x };
            } else if entries[i].kind == EntryKind::Dir {
                stats.total_dirs = stats.total_dirs + 1;
            }
        }
        i = i + 1;
    }
    stats
}

/// Appends the line of entry `i`.
fn push_entry_line(
    out: &mut String,
    entries: &Vec<Entry>,
    sizes: &Vec<u64>,
    sh: &Vec<bool>,
    i: usize,
    Ghost(st): Ghost<Settings>,
)
    requires
        well_formed(entries@),
        0 < i < entries@.len(),
        sizes@.len() == entries@.len(),
        forall|k: int| 0 <= k < sizes@.len() ==> sizes@[k] as nat == dir_size(entries@, st.excl, k),
        sh@.len() == entries@.len(),
        forall|k: int| 0 <= k < sh@.len() ==> sh@[k] == shown(entries@, st, k),
    ensures
        final(out)@ == old(out)@ + line(entries@, st, i as int),
{
    let e = &entries[i];
    assert(e.depth >= 1) by {
        assert(entries@[i as int].parent < i);
    }
    push_repeated(out, "│   ", e.depth - 1);
    if is_last_in_directory(entries, sh, i, Ghost(st)) {
        out.append("└── ");
    } else {
        out.append("├── ");
    }
    let tint = if e.kind == EntryKind::Dir { Tint::Blue } else { Tint::White };
    let name = e.label();
    let shown_name = paint(tint, name.as_str());
    out.append(shown_name.as_str());
    out.append(" (");
    let size = if e.kind == EntryKind::Dir { sizes[i] } else { e.len };
    let size_str = format_size(size);
    let shown_size = paint(Tint::Green, size_str.as_str());
    out.append(shown_size.as_str());
    out.append(")\n");
    assert(final(out)@ =~= old(out)@ + line(entries@, st, i as int));
}

/// Renders a traversal from its listing.
///
/// The listing is the walk of `root` in pre-order, root first. Entries are
/// admitted by `should_include` with `exclude_patterns` and the patterns of
/// `project`, the ecosystem detected at the root; an entry is reached only
/// through admitted directories. Shown are the admitted non-root entries
/// within `max_depth` (0 for no ceiling) that are directories or hold an
/// inclusion pattern, when any is given. The text holds the project header,
/// the root line with the root's aggregate size, one line per shown entry,
/// and the summary; the structure holds one (parent, child) name pair per
/// shown entry.
pub fn generate_tree(
    entries: &Vec<Entry>,
    exclude_patterns: &Vec<String>,
    include_patterns: &Vec<String>,
    max_depth: usize,
    project: &Option<ProjectType>,
) -> (r: TreeData)
    requires
        well_formed(entries@),
    ensures
        ({
            let st = Settings {
                excl: effective_excludes(exclude_patterns@, *project),
                incl: crate::filter::views(include_patterns@),
                max_depth: max_depth as nat,
            };
            let ls = entries@;
            let n = ls.len() as int;
            &&& r.terminal_output@ == header(*project) + root_line(dir_size(ls, st.excl, 0))
                + lines_upto(ls, st, n) + summary(
                clamp64(files_sum(ls, st, n)),
                count_kind(ls, st, EntryKind::File, n),
                count_kind(ls, st, EntryKind::Dir, n),
            )
            &&& pair_views(r.structure@) == pairs_upto(ls, st, n)
        }),
{
    let ghost st = Settings {
        excl: effective_excludes(exclude_patterns@, *project),
        incl: crate::filter::views(include_patterns@),
        max_depth: max_depth as nat,
    };
    let ghost ls = entries@;
    let n = entries.len();
    let adm = admission(entries, exclude_patterns, project);
    let mut sh: Vec<bool> = Vec::new();
    let mut i: usize = 0;
    while i < n
        invariant
            n == entries@.len(),
            i <= n,
            sh@.len() == i,
            adm@.len() == n,
            forall|k: int| 0 <= k < n ==> adm@[k] == admitted(entries@, st.excl, k),
            forall|k: int| 0 <= k < i ==> sh@[k] == shown(entries@, st, k),
            st.incl == crate::filter::views(include_patterns@),
            st.max_depth == max_depth as nat,
        decreases n - i,
    {
        let e = &entries[i];
        let s = i > 0 && adm[i] && (max_depth == 0 || e.depth <= max_depth)
            && (include_patterns.len() == 0 || e.kind == EntryKind::Dir
                || contains_any(&e.path, include_patterns));
        sh.push(s);
        i = i + 1;
    }

    let mut out = String::new();
    match project {
        Some(p) => {
            out.append("Detected project type: ");
            let name = paint_bold_blue(p.name.as_str());
            out.append(name.as_str());
            out.append(" (auto-excluding common build artifacts)\n\n");
        },
        None => {},
    }
    let sizes = calculate_dir_sizes(entries, &adm, Ghost(st.excl));
    let root_size = sizes[0];
    let root_name = paint_bold_blue(".");
    out.append(root_name.as_str());
    out.append(" (");
    let root_size_str = format_size(root_size);
    let shown_root_size = paint(Tint::Green, root_size_str.as_str());
    out.append(shown_root_size.as_str());
    out.append(")\n");
    let ghost top = header(*project) + root_line(dir_size(ls, st.excl, 0));
    assert(out@ =~= top);

    let mut relationships: Vec<(String, String)> = Vec::new();
    let mut i: usize = 0;
    while i < n
        invariant
            well_formed(entries@),
            n == entries@.len(),
            i <= n,
            sh@.len() == n,
            sizes@.len() == n,
            forall|k: int| 0 <= k < n ==> sizes@[k] as nat == dir_size(entries@, st.excl, k),
            forall|k: int| 0 <= k < n ==> sh@[k] == shown(entries@, st, k),
            out@ == top + lines_upto(entries@, st, i as int),
            pair_views(relationships@) == pairs_upto(entries@, st, i as int),
        decreases n - i,
    {
        if sh[i] {
            push_entry_line(&mut out, entries, &sizes, &sh, i, Ghost(st));
            assert(out@ =~= top + lines_upto(entries@, st, i + 1));
            let ghost prev = relationships@;
            assert(entries@[i as int].parent < i);
            let parent_name = entries[entries[i].parent].label();
            let child_name = entries[i].label();
            relationships.push((parent_name, child_name));
            assert(pair_views(relationships@) =~= pair_views(prev).push((parent_name@, child_name@)));
        }
        i = i + 1;
    }

    let stats = calculate_tree_stats(entries, &sh, Ghost(st));
    let ghost body = out@;
    out.append("\n");
    let label_text = paint(Tint::Yellow, "Summary:");
    out.append(label_text.as_str());
    out.append("\n");
    out.append("  Total size: ");
    let total_str = format_size(stats.total_size);
    let shown_total = paint(Tint::Green, total_str.as_str());
    out.append(shown_total.as_str());
    out.append("\n");
    out.append("  Files: ");
    push_decimal(&mut out, stats.total_files as u128);
    out.append("\n");
    out.append("  Directories: ");
    push_decimal(&mut out, stats.total_dirs as u128);
    out.append("\n");
    assert(out@ =~= body + summary(stats.total_size as nat, stats.total_files as nat, stats.total_dirs as nat));
    TreeData { terminal_output: out, structure: relationships }
}

/// A hidden entry is never shown, whatever the exclusion and inclusion
/// patterns.
pub proof fn lemma_hidden_never_shown(ls: Seq<Entry>, st: Settings, i: int)
    requires
        0 <= i < ls.len(),
        hidden(ls[i].name),
    ensures
        !shown(ls, st, i),
{
}

proof fn lemma_admitted_ancestor(ls: Seq<Entry>, excl: Seq<Seq<char>>, i: int, a: int)
    requires
        0 <= i < ls.len(),
        descends(ls, i, a),
        admitted(ls, excl, i),
    ensures
        admitted(ls, excl, a),
    decreases i,
{
    if i != a {
        lemma_admitted_ancestor(ls, excl, ls[i].parent as int, a);
    }
}

/// Everything at or below a directory whose path holds a pattern of the
/// detected ecosystem is left out, with no exclude pattern of the caller's.
pub proof fn lemma_ecosystem_pattern_prunes(ls: Seq<Entry>, p: ProjectType, a: int, i: int, k: int)
    requires
        well_formed(ls),
        0 <= a <= i < ls.len(),
        descends(ls, i, a),
        0 <= k < p.exclude_view().len(),
        occurs(ls[a].path@, p.exclude_view()[k]),
    ensures
        !admitted(ls, effective_excludes(Seq::empty(), Some(p)), i),
{
    let excl = effective_excludes(Seq::empty(), Some(p));
    assert(views(Seq::<String>::empty()) =~= Seq::empty());
    assert(excl[k] == p.exclude_view()[k]);
    if admitted(ls, excl, i) {
        lemma_admitted_ancestor(ls, excl, i, a);
        if a > 0 {
            assert(ls[a].parent < a);
        }
        assert(passes(ls[a], excl));
    }
}

/// The pair of entry `i`: its parent's name and its own.
pub open spec fn pair_of(ls: Seq<Entry>, i: int) -> (Seq<char>, Seq<char>) {
    (label(ls[ls[i].parent as int]), label(ls[i]))
}

/// `pr` is the pair of some shown entry.
pub open spec fn is_shown_pair(ls: Seq<Entry>, st: Settings, pr: (Seq<char>, Seq<char>)) -> bool {
    exists|i: int| 0 <= i < ls.len() && #[trigger] shown(ls, st, i) && pr == pair_of(ls, i)
}

proof fn lemma_pairs_shape(ls: Seq<Entry>, st: Settings, m: int)
    requires
        0 <= m <= ls.len(),
    ensures
        pairs_upto(ls, st, m).len() == count_shown(ls, st, m),
        forall|q: int| 0 <= q < pairs_upto(ls, st, m).len()
            ==> is_shown_pair(ls, st, #[trigger] pairs_upto(ls, st, m)[q]),
        forall|i: int| 0 <= i < m && #[trigger] shown(ls, st, i) ==> pairs_upto(ls, st, m).contains(pair_of(ls, i)),
    decreases m,
{
    if m > 0 {
        lemma_pairs_shape(ls, st, m - 1);
        let prev = pairs_upto(ls, st, m - 1);
        let cur = pairs_upto(ls, st, m);
        assert forall|q: int| 0 <= q < cur.len() implies is_shown_pair(ls, st, #[trigger] cur[q]) by {
            if q < prev.len() {
                assert(cur[q] == prev[q]);
            } else {
                assert(shown(ls, st, m - 1));
                assert(cur[q] == pair_of(ls, m - 1));
            }
        }
        assert forall|i: int| 0 <= i < m && #[trigger] shown(ls, st, i) implies cur.contains(pair_of(ls, i)) by {
            if i < m - 1 {
                let q = choose|q: int| 0 <= q < prev.len() && prev[q] == pair_of(ls, i);
                assert(cur[q] == prev[q]);
            } else {
                assert(cur[prev.len() as int] == pair_of(ls, i));
            }
        }
    }
}

/// The adjacency list of a traversal holds exactly one pair per shown
/// entry: as many pairs as shown entries, each the pair of a shown entry
/// (its parent's name, its own), and every shown entry's pair among them.
pub proof fn lemma_one_pair_per_shown_entry(ls: Seq<Entry>, st: Settings)
    ensures
        pairs_upto(ls, st, ls.len() as int).len() == count_shown(ls, st, ls.len() as int),
        forall|q: int| 0 <= q < pairs_upto(ls, st, ls.len() as int).len()
            ==> is_shown_pair(ls, st, #[trigger] pairs_upto(ls, st, ls.len() as int)[q]),
        forall|i: int| 0 <= i < ls.len() && #[trigger] shown(ls, st, i)
            ==> pairs_upto(ls, st, ls.len() as int).contains(pair_of(ls, i)),
{
    lemma_pairs_shape(ls, st, ls.len() as int);
}

spec fn is_pair_before(ls: Seq<Entry>, st: Settings, m: int, pr: (Seq<char>, Seq<char>)) -> bool {
    exists|i: int| 0 <= i < m && #[trigger] shown(ls, st, i) && pr == pair_of(ls, i)
}

proof fn lemma_pairs_children_distinct(ls: Seq<Entry>, st: Settings, m: int)
    requires
        0 <= m <= ls.len(),
        forall|i: int, j: int| 0 <= i < j < ls.len() && shown(ls, st, i) && shown(ls, st, j)
            ==> label(ls[i]) != label(ls[j]),
    ensures
        forall|q1: int, q2: int| 0 <= q1 < q2 < pairs_upto(ls, st, m).len()
            ==> pairs_upto(ls, st, m)[q1].1 != pairs_upto(ls, st, m)[q2].1,
        forall|q: int| 0 <= q < pairs_upto(ls, st, m).len()
            ==> is_pair_before(ls, st, m, #[trigger] pairs_upto(ls, st, m)[q]),
    decreases m,
{
    if m > 0 {
        lemma_pairs_children_distinct(ls, st, m - 1);
        let prev = pairs_upto(ls, st, m - 1);
        let cur = pairs_upto(ls, st, m);
        if shown(ls, st, m - 1) {
            assert forall|q: int| 0 <= q < cur.len() implies is_pair_before(ls, st, m, #[trigger] cur[q]) by {
                if q < prev.len() {
                    assert(cur[q] == prev[q]);
                    assert(is_pair_before(ls, st, m - 1, prev[q]));
                } else {
                    assert(cur[q] == pair_of(ls, m - 1));
                }
            }
            assert forall|q1: int, q2: int| 0 <= q1 < q2 < cur.len() implies cur[q1].1 != cur[q2].1 by {
                if q2 < prev.len() {
                    assert(cur[q1] == prev[q1] && cur[q2] == prev[q2]);
                } else {
                    assert(cur[q1] == prev[q1]);
                    assert(is_pair_before(ls, st, m - 1, prev[q1]));
                    let i = choose|i: int| 0 <= i < m - 1 && #[trigger] shown(ls, st, i) && prev[q1] == pair_of(ls, i);
                    assert(cur[q2] == pair_of(ls, m - 1));
                }
            }
        }
    }
}

/// Where the shown entries have pairwise different names, every shown
/// entry's name stands exactly once as the child of a pair.
pub proof fn lemma_each_child_once(ls: Seq<Entry>, st: Settings)
    requires
        forall|i: int, j: int| 0 <= i < j < ls.len() && shown(ls, st, i) && shown(ls, st, j)
            ==> label(ls[i]) != label(ls[j]),
    ensures
        forall|i: int| 0 <= i < ls.len() && #[trigger] shown(ls, st, i) ==> exists|q: int|
            0 <= q < pairs_upto(ls, st, ls.len() as int).len()
            && pairs_upto(ls, st, ls.len() as int)[q].1 == label(ls[i])
            && forall|q2: int| 0 <= q2 < pairs_upto(ls, st, ls.len() as int).len() && q2 != q
                ==> pairs_upto(ls, st, ls.len() as int)[q2].1 != label(ls[i]),
{
    let n = ls.len() as int;
    lemma_pairs_shape(ls, st, n);
    lemma_pairs_children_distinct(ls, st, n);
    let ps = pairs_upto(ls, st, n);
    assert forall|i: int| 0 <= i < ls.len() && #[trigger] shown(ls, st, i) implies exists|q: int|
        0 <= q < ps.len() && ps[q].1 == label(ls[i])
        && forall|q2: int| 0 <= q2 < ps.len() && q2 != q ==> ps[q2].1 != label(ls[i]) by {
        assert(ps.contains(pair_of(ls, i)));
        let q = choose|q: int| 0 <= q < ps.len() && ps[q] == pair_of(ls, i);
        assert forall|q2: int| 0 <= q2 < ps.len() && q2 != q implies ps[q2].1 != label(ls[i]) by {
            if q2 < q {
                assert(ps[q2].1 != ps[q].1);
            } else {
                assert(ps[q].1 != ps[q2].1);
            }
        }
    }
}

/// A listing of the root alone, as walking an empty directory gives:
/// nothing is shown, the adjacency list is empty and the text still holds
/// the root line and the summary.
pub proof fn lemma_root_only(ls: Seq<Entry>, st: Settings, project: Option<ProjectType>)
    requires
        ls.len() == 1,
    ensures
        pairs_upto(ls, st, 1).len() == 0,
        lines_upto(ls, st, 1).len() == 0,
        (header(project) + root_line(dir_size(ls, st.excl, 0)) + lines_upto(ls, st, 1)
            + summary(clamp64(files_sum(ls, st, 1)), count_kind(ls, st, EntryKind::File, 1),
                count_kind(ls, st, EntryKind::Dir, 1))).len() > 0,
{
    assert(!shown(ls, st, 0));
    assert(pairs_upto(ls, st, 0).len() == 0);
    assert(lines_upto(ls, st, 0).len() == 0);
    reveal_strlit("\n");
    let tail = summary(clamp64(files_sum(ls, st, 1)), count_kind(ls, st, EntryKind::File, 1),
        count_kind(ls, st, EntryKind::Dir, 1));
    assert(tail.len() > 0);
}

} // verus!
