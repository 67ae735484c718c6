//! Parses `dpkg -S <path>...` output to resolve which package (if any)
//! owns a given file path.
use vstd::prelude::*;
use vstd::hash_map::StringHashMap;
use crate::text::{
    chars_of, find_char, find_pair, index_of_or_len, index_of_pair, lemma_index_of_or_len,
    lemma_index_of_pair_found, pair_at,
    spec_is_whitespace, trim, trim_end, trim_start, trim_range, string_from_range,
};

verus! {

/// `s` without a final carriage return.
pub open spec fn strip_cr(s: Seq<char>) -> Seq<char> {
    if s.len() > 0 && s.last() == '\r' {
        s.drop_last()
    } else {
        s
    }
}

/// The lines of `s` as `str::lines` yields them: split at each `\n`, a
/// `\r` directly before a `\n` removed, and no empty final line after a
/// closing `\n`.
pub open spec fn split_lines(s: Seq<char>) -> Seq<Seq<char>>
    decreases s.len(),
{
    if s.len() == 0 {
        seq![]
    } else {
        let k = index_of_or_len(s, '\n');
        if 0 <= k < s.len() {
            seq![strip_cr(s.take(k))] + split_lines(s.skip(k + 1))
        } else {
            seq![s]
        }
    }
}

/// What one line of `dpkg -S` output says: `Some((path, package))` for a
/// line `packages: path` whose trimmed path is absolute and whose first
/// listed package (before any `,`) is non-empty once trimmed; `None` for
/// every other line. The first `": "` is the delimiter.
pub open spec fn dpkg_line_entry(line: Seq<char>) -> Option<(Seq<char>, Seq<char>)> {
    match index_of_pair(line, ':', ' ') {
        None => None,
        Some(i) => {
            let packages = line.take(i);
            let path = trim(line.skip(i + 2));
            let first = trim(packages.take(index_of_or_len(packages, ',')));
            if path.len() > 0 && path[0] == '/' && first.len() > 0 {
                Some((path, first))
            } else {
                None
            }
        }
    }
}

/// The owners that a sequence of lines records, each recognised line
/// mapping its path to its package, a later line for the same path
/// replacing an earlier one.
pub open spec fn owners_from_lines(lines: Seq<Seq<char>>) -> Map<Seq<char>, Seq<char>>
    decreases lines.len(),
{
    if lines.len() == 0 {
        Map::empty()
    } else {
        let prev = owners_from_lines(lines.drop_last());
        match dpkg_line_entry(lines.last()) {
            Some((path, package)) => prev.insert(path, package),
            None => prev,
        }
    }
}

/// The path-to-package map that `dpkg -S` output describes.
pub open spec fn dpkg_search_owners(output: Seq<char>) -> Map<Seq<char>, Seq<char>> {
    owners_from_lines(split_lines(output))
}

/// The map of strings that a `StringHashMap<String>` holds, by value views.
pub open spec fn owner_map_view(m: Map<Seq<char>, String>) -> Map<Seq<char>, Seq<char>> {
    m.map_values(|v: String| v@)
}

/// The entry that the line `[lo, hi)` of `cs` records, if any.
fn parse_line(cs: &Vec<char>, lo: usize, hi: usize) -> (r: Option<(String, String)>)
    requires
        lo <= hi <= cs@.len(),
    ensures
        match dpkg_line_entry(cs@.subrange(lo as int, hi as int)) {
            Some((path, package)) => r matches Some((p, k)) && p@ == path && k@ == package,
            None => r is None,
        },
{
    let ghost line = cs@.subrange(lo as int, hi as int);
    match find_pair(cs, lo, hi, ':', ' ') {
        None => None,
        Some(i) => {
            let (pa, pb) = trim_range(cs, i + 2, hi);
            let c = find_char(cs, lo, i, ',');
            let (ka, kb) = trim_range(cs, lo, c);
            proof {
                let j = i - lo;
                let packages = line.take(j);
                assert(packages =~= cs@.subrange(lo as int, i as int));
                assert(line.skip(j + 2) =~= cs@.subrange(i + 2, hi as int));
                assert(packages.take(index_of_or_len(packages, ',')) =~= cs@.subrange(
                    lo as int,
                    c as int,
                ));
            }
            if pa < pb && cs[pa] == '/' && ka < kb {
                let path = string_from_range(cs, pa, pb);
                let package = string_from_range(cs, ka, kb);
                Some((path, package))
            } else {
                None
            }
        }
    }
}

/// Parses batched `dpkg -S` output into a map of file path to owning
/// package name.
///
/// Each owned path produces a line like `package: /path/to/file`, or
/// `package1, package2: /path/to/file` when multiple packages claim the
/// same path (e.g. via diversions or alternatives); the first-listed
/// package is used for attribution in that case. Lines of any other shape
/// (such as diagnostics) are skipped, and a later line for the same path
/// replaces an earlier one.
pub fn parse_dpkg_search(output: &str) -> (owners: StringHashMap<String>)
    ensures
        owner_map_view(owners@) == dpkg_search_owners(output@),
{
    let cs = chars_of(output);
    let n = cs.len();
    let mut owners: StringHashMap<String> = StringHashMap::new();
    let mut start: usize = 0;
    let ghost mut done: Seq<Seq<char>> = seq![];
    proof {
        assert(cs@.subrange(0, n as int) =~= cs@);
    }
    while start < n
        invariant
            n == cs@.len(),
            cs@ == output@,
            start <= n,
            split_lines(cs@) == done + split_lines(cs@.subrange(start as int, n as int)),
            owner_map_view(owners@) == owners_from_lines(done),
        decreases n - start,
    {
        let end = find_char(&cs, start, n, '\n');
        let ghost rest = cs@.subrange(start as int, n as int);
        let line_end = if end < n && end > start && cs[end - 1] == '\r' {
            end - 1
        } else {
            end
        };
        let ghost line = cs@.subrange(start as int, line_end as int);
        proof {
            let k = end - start;
            if end < n {
                assert(rest.take(k) =~= cs@.subrange(start as int, end as int));
                assert(rest.skip(k + 1) =~= cs@.subrange(end + 1, n as int));
                assert(strip_cr(rest.take(k)) =~= line);
                assert(split_lines(rest) == seq![line] + split_lines(
                    cs@.subrange(end + 1, n as int),
                ));
            } else {
                assert(line =~= rest);
                assert(split_lines(rest) == seq![line]);
                assert(cs@.subrange(n as int, n as int) =~= Seq::<char>::empty());
                assert(split_lines(cs@.subrange(n as int, n as int)) =~= Seq::<Seq<char>>::empty());
            }
        }
        let entry = parse_line(&cs, start, line_end);
        proof {
            let new_done = done.push(line);
            assert(new_done.drop_last() =~= done);
            assert(new_done.last() == line);
        }
        match entry {
            Some((path, package)) => {
                let ghost before = owners@;
                owners.insert(path, package);
                proof {
                    assert(owner_map_view(owners@) =~= owner_map_view(before).insert(
                        path@,
                        package@,
                    ));
                }
            },
            None => {},
        }
        proof {
            done = done.push(line);
        }
        if end < n {
            start = end + 1;
        } else {
            proof {
                assert(done + split_lines(cs@.subrange(n as int, n as int)) =~= done);
            }
            start = n;
        }
    }
    proof {
        assert(cs@.subrange(n as int, n as int) =~= Seq::<char>::empty());
        assert(done + split_lines(cs@.subrange(n as int, n as int)) =~= done);
    }
    owners
}

// ---------------------------------------------------------------------------
// Laws
// ---------------------------------------------------------------------------

proof fn lemma_owners_concat(xs: Seq<Seq<char>>, ys: Seq<Seq<char>>)
    ensures
        owners_from_lines(xs + ys) == owners_from_lines(xs).union_prefer_right(
            owners_from_lines(ys),
        ),
    decreases ys.len(),
{
    if ys.len() == 0 {
        assert(xs + ys =~= xs);
        assert(owners_from_lines(xs).union_prefer_right(owners_from_lines(ys)) =~= owners_from_lines(
            xs,
        ));
    } else {
        assert((xs + ys).drop_last() =~= xs + ys.drop_last());
        assert((xs + ys).last() == ys.last());
        lemma_owners_concat(xs, ys.drop_last());
        let m = owners_from_lines(xs);
        let n = owners_from_lines(ys.drop_last());
        match dpkg_line_entry(ys.last()) {
            Some((p, k)) => {
                assert(m.union_prefer_right(n).insert(p, k) =~= m.union_prefer_right(
                    n.insert(p, k),
                ));
            },
            None => {},
        }
    }
}

proof fn lemma_first_newline_of_concat(a: Seq<char>, b: Seq<char>, k: int)
    requires
        0 <= k <= a.len(),
        k == index_of_or_len(a, '\n'),
        k < a.len() || b.len() > 0 && b[0] == '\n',
    ensures
        index_of_or_len(a + b, '\n') == k,
{
    lemma_index_of_or_len_prefix(a, '\n');
    lemma_index_of_or_len(a + b, '\n', k);
}

proof fn lemma_index_of_or_len_prefix(a: Seq<char>, c: char)
    ensures
        0 <= index_of_or_len(a, c) <= a.len(),
        forall|j: int| 0 <= j < index_of_or_len(a, c) ==> a[j] != c,
        index_of_or_len(a, c) < a.len() ==> a[index_of_or_len(a, c)] == c,
    decreases a.len(),
{
    if a.len() > 0 && a[0] != c {
        lemma_index_of_or_len_prefix(a.drop_first(), c);
        let t = a.drop_first();
        assert forall|j: int| 0 <= j < index_of_or_len(a, c) implies a[j] != c by {
            if j > 0 {
                assert(a[j] == t[j - 1]);
            }
        }
    }
}

/// The lines of `a`, then `\n`, then `b`: the lines of `a + "\n"`, then
/// the lines of `b`.
proof fn lemma_split_lines_concat(a: Seq<char>, b: Seq<char>)
    ensures
        split_lines(a + seq!['\n'] + b) == split_lines(a + seq!['\n']) + split_lines(b),
    decreases a.len(),
{
    let nl = seq!['\n'];
    let k = index_of_or_len(a, '\n');
    lemma_index_of_or_len_prefix(a, '\n');
    let s = a + nl + b;
    let t = a + nl;
    assert(s =~= a + (nl + b));
    lemma_first_newline_of_concat(a, nl + b, k);
    lemma_first_newline_of_concat(a, nl, k);
    assert(s.take(k) =~= a.take(k));
    assert(t.take(k) =~= a.take(k));
    if k == a.len() {
        assert(s.skip(k + 1) =~= b);
        assert(t.skip(k + 1) =~= Seq::<char>::empty());
        assert(split_lines(Seq::<char>::empty()) =~= Seq::<Seq<char>>::empty());
        assert(split_lines(t) =~= seq![strip_cr(a.take(k))]);
    } else {
        let a2 = a.skip(k + 1);
        assert(s.skip(k + 1) =~= a2 + nl + b);
        assert(t.skip(k + 1) =~= a2 + nl);
        lemma_split_lines_concat(a2, b);
        assert(split_lines(s) =~= split_lines(t) + split_lines(b));
    }
}

proof fn lemma_index_of_pair_push(s: Seq<char>, c: char)
    requires
        c != ' ',
    ensures
        index_of_pair(s.push(c), ':', ' ') == index_of_pair(s, ':', ' '),
    decreases s.len(),
{
    if s.len() >= 1 {
        assert(s.push(c).drop_first() =~= s.drop_first().push(c));
        lemma_index_of_pair_push(s.drop_first(), c);
    }
}

proof fn lemma_trim_start_push(t: Seq<char>, c: char)
    requires
        spec_is_whitespace(c),
    ensures
        trim_start(t.push(c)) == (if trim_start(t).len() > 0 {
            trim_start(t).push(c)
        } else {
            Seq::<char>::empty()
        }),
    decreases t.len(),
{
    assert(t.push(c)[0] == (if t.len() == 0 { c } else { t[0] }));
    if t.len() == 0 {
        assert(t.push(c).drop_first() =~= Seq::<char>::empty());
        assert(trim_start(Seq::<char>::empty()) =~= Seq::<char>::empty());
    } else if spec_is_whitespace(t[0]) {
        assert(t.push(c).drop_first() =~= t.drop_first().push(c));
        lemma_trim_start_push(t.drop_first(), c);
    }
}

proof fn lemma_trim_push_whitespace(t: Seq<char>, c: char)
    requires
        spec_is_whitespace(c),
    ensures
        trim(t.push(c)) == trim(t),
{
    lemma_trim_start_push(t, c);
    let u = trim_start(t);
    if u.len() > 0 {
        assert(u.push(c).drop_last() =~= u);
    } else {
        assert(trim_end(u) =~= Seq::<char>::empty());
    }
}

/// A carriage return at the end of a line changes nothing of what the
/// line records.
proof fn lemma_line_entry_strip_cr(line: Seq<char>)
    ensures
        dpkg_line_entry(strip_cr(line)) == dpkg_line_entry(line),
{
    if line.len() > 0 && line.last() == '\r' {
        let t = line.drop_last();
        assert(t.push('\r') =~= line);
        lemma_index_of_pair_push(t, '\r');
        match index_of_pair(t, ':', ' ') {
            Some(i) => {
                lemma_index_of_pair_range(t);
                assert(line.take(i) =~= t.take(i));
                assert(line.skip(i + 2) =~= t.skip(i + 2).push('\r'));
                lemma_trim_push_whitespace(t.skip(i + 2), '\r');
            },
            None => {},
        }
    }
}

proof fn lemma_index_of_pair_range(s: Seq<char>)
    ensures
        index_of_pair(s, ':', ' ') matches Some(i) ==> 0 <= i && i + 2 <= s.len(),
    decreases s.len(),
{
    if s.len() >= 2 {
        lemma_index_of_pair_range(s.drop_first());
    }
}

proof fn lemma_trim_start_skips(s: Seq<char>) -> (lo: int)
    ensures
        0 <= lo <= s.len(),
        trim_start(s) == s.skip(lo),
        lo < s.len() ==> !spec_is_whitespace(s[lo]),
    decreases s.len(),
{
    if s.len() > 0 && spec_is_whitespace(s[0]) {
        let lo = lemma_trim_start_skips(s.drop_first());
        assert(s.drop_first().skip(lo) =~= s.skip(lo + 1));
        lo + 1
    } else {
        assert(s.skip(0) =~= s);
        0
    }
}

proof fn lemma_trim_end_takes(s: Seq<char>) -> (hi: int)
    ensures
        0 <= hi <= s.len(),
        trim_end(s) == s.take(hi),
        hi > 0 ==> !spec_is_whitespace(s[hi - 1]),
    decreases s.len(),
{
    if s.len() > 0 && spec_is_whitespace(s.last()) {
        let hi = lemma_trim_end_takes(s.drop_last());
        assert(s.drop_last().take(hi) =~= s.take(hi));
        hi
    } else {
        assert(s.take(s.len() as int) =~= s);
        s.len() as int
    }
}

/// A trimmed text is a slice of the untrimmed one, without whitespace at either
/// end.
proof fn lemma_trim_is_inner_part(s: Seq<char>) -> (r: (int, int))
    ensures
        0 <= r.0 <= r.1 <= s.len(),
        trim(s) == s.subrange(r.0, r.1),
        trim(s).len() > 0 ==> !spec_is_whitespace(trim(s)[0]) && !spec_is_whitespace(
            trim(s).last(),
        ),
{
    let lo = lemma_trim_start_skips(s);
    let u = s.skip(lo);
    let hi = lemma_trim_end_takes(u);
    assert(u.take(hi) =~= s.subrange(lo, lo + hi));
    (lo, lo + hi)
}

/// What every recorded entry looks like: an absolute path with no
/// whitespace at its end, and a non-empty package name with no whitespace
/// at either end and no comma.
pub open spec fn owner_entry_well_formed(path: Seq<char>, package: Seq<char>) -> bool {
    &&& path.len() > 0
    &&& path[0] == '/'
    &&& !spec_is_whitespace(path.last())
    &&& package.len() > 0
    &&& !spec_is_whitespace(package[0])
    &&& !spec_is_whitespace(package.last())
    &&& forall|i: int| 0 <= i < package.len() ==> package[i] != ','
}

proof fn lemma_line_entry_well_formed(line: Seq<char>)
    ensures
        dpkg_line_entry(line) matches Some((p, k)) ==> owner_entry_well_formed(p, k),
{
    match index_of_pair(line, ':', ' ') {
        Some(i) => {
            let packages = line.take(i);
            let c = index_of_or_len(packages, ',');
            lemma_index_of_or_len_prefix(packages, ',');
            let field = packages.take(c);
            lemma_trim_is_inner_part(line.skip(i + 2));
            let r = lemma_trim_is_inner_part(field);
            let first = trim(field);
            assert forall|j: int| 0 <= j < first.len() implies first[j] != ',' by {
                assert(first[j] == field[r.0 + j]);
            }
        },
        None => {},
    }
}

proof fn lemma_owners_well_formed(lines: Seq<Seq<char>>)
    ensures
        forall|p: Seq<char>| #[trigger]
            owners_from_lines(lines).contains_key(p) ==> owner_entry_well_formed(
                p,
                owners_from_lines(lines)[p],
            ),
    decreases lines.len(),
{
    if lines.len() > 0 {
        let prev = owners_from_lines(lines.drop_last());
        lemma_owners_well_formed(lines.drop_last());
        lemma_line_entry_well_formed(lines.last());
        match dpkg_line_entry(lines.last()) {
            Some((path, package)) => {
                assert forall|p: Seq<char>| #[trigger]
                    owners_from_lines(lines).contains_key(p) implies owner_entry_well_formed(
                    p,
                    owners_from_lines(lines)[p],
                ) by {
                    if p != path {
                        assert(prev.contains_key(p));
                    }
                }
            },
            None => {},
        }
    }
}

/// Every path in the parsed map is absolute (it starts with `/`) and ends
/// in no whitespace; every package name is non-empty, has no whitespace at
/// either end and holds no comma (it is the first of the listed packages).
pub proof fn lemma_parsed_entries_are_well_formed(output: Seq<char>)
    ensures
        forall|p: Seq<char>| #[trigger]
            dpkg_search_owners(output).contains_key(p) ==> owner_entry_well_formed(
                p,
                dpkg_search_owners(output)[p],
            ),
{
    lemma_owners_well_formed(split_lines(output));
}

/// A closing line break changes nothing of what the output records.
proof fn lemma_owners_closing_newline(a: Seq<char>)
    ensures
        owners_from_lines(split_lines(a + seq!['\n'])) == owners_from_lines(split_lines(a)),
    decreases a.len(),
{
    let nl = seq!['\n'];
    let t = a + nl;
    let k = index_of_or_len(a, '\n');
    lemma_index_of_or_len_prefix(a, '\n');
    lemma_first_newline_of_concat(a, nl, k);
    assert(t.take(k) =~= a.take(k));
    if a.len() == 0 {
        assert(t.skip(1) =~= Seq::<char>::empty());
        assert(split_lines(Seq::<char>::empty()) =~= Seq::<Seq<char>>::empty());
        assert(t.take(0) =~= Seq::<char>::empty());
        assert(strip_cr(Seq::<char>::empty()) =~= Seq::<char>::empty());
        assert(split_lines(t) =~= seq![Seq::<char>::empty()]);
        assert(seq![Seq::<char>::empty()].drop_last() =~= Seq::<Seq<char>>::empty());
    } else if k == a.len() {
        assert(t.skip(k + 1) =~= Seq::<char>::empty());
        assert(split_lines(Seq::<char>::empty()) =~= Seq::<Seq<char>>::empty());
        assert(a.take(k) =~= a);
        assert(split_lines(t) =~= seq![strip_cr(a)]);
        lemma_line_entry_strip_cr(a);
        assert(seq![strip_cr(a)].drop_last() =~= Seq::<Seq<char>>::empty());
        assert(seq![a].drop_last() =~= Seq::<Seq<char>>::empty());
    } else {
        let a2 = a.skip(k + 1);
        assert(t.skip(k + 1) =~= a2 + nl);
        lemma_owners_closing_newline(a2);
        let first = seq![strip_cr(a.take(k))];
        lemma_owners_concat(first, split_lines(a2 + nl));
        lemma_owners_concat(first, split_lines(a2));
    }
}

/// Batched output records what its parts record: the output `a`, a line
/// break, then `b`, maps each path to the package that `b` gives it, or,
/// failing that, `a`. So a later line for a path replaces an earlier one,
/// and lines are independent of one another.
pub proof fn lemma_batched_output_merges_parts(a: Seq<char>, b: Seq<char>)
    ensures
        dpkg_search_owners(a + seq!['\n'] + b) == dpkg_search_owners(a).union_prefer_right(
            dpkg_search_owners(b),
        ),
{
    lemma_split_lines_concat(a, b);
    lemma_owners_concat(split_lines(a + seq!['\n']), split_lines(b));
    lemma_owners_closing_newline(a);
}

proof fn lemma_trim_of_trimmed(s: Seq<char>)
    requires
        s.len() > 0,
        !spec_is_whitespace(s[0]),
        !spec_is_whitespace(s.last()),
    ensures
        trim(s) == s,
{
    assert(trim_start(s) == s);
    assert(trim_end(s) == s);
}

/// A single `dpkg -S` line `p, others: path` (the first listed package `p`,
/// any further packages after a comma) records exactly one owner: `path`
/// is owned by `p`, whatever characters `p` holds, as long as `p` is a
/// non-empty name without surrounding whitespace, comma or line break, the
/// package list holds no `": "`, and `path` is an absolute path without
/// trailing whitespace or line break. A closing line break changes nothing.
pub proof fn lemma_owner_line_maps_path_to_first_package(
    p: Seq<char>,
    others: Seq<char>,
    path: Seq<char>,
)
    requires
        p.len() > 0,
        !spec_is_whitespace(p[0]),
        !spec_is_whitespace(p.last()),
        forall|i: int| 0 <= i < p.len() ==> #[trigger] p[i] != ',' && p[i] != '\n',
        others.len() == 0 || others[0] == ',',
        forall|i: int| 0 <= i < others.len() ==> #[trigger] others[i] != '\n',
        forall|j: int| !#[trigger] pair_at(p + others, j, ':', ' '),
        path.len() > 0,
        path[0] == '/',
        !spec_is_whitespace(path.last()),
        forall|i: int| 0 <= i < path.len() ==> #[trigger] path[i] != '\n',
    ensures
        dpkg_search_owners(p + others + seq![':', ' '] + path) == map![path => p],
        dpkg_search_owners(p + others + seq![':', ' '] + path + seq!['\n']) == map![path => p],
{
    let pk = p + others;
    let line = pk + seq![':', ' '] + path;
    let k = pk.len() as int;
    // The line holds no line break.
    assert forall|j: int| 0 <= j < line.len() implies line[j] != '\n' by {
        if j < p.len() {
            assert(line[j] == p[j]);
        } else if j < k {
            assert(line[j] == others[j - p.len()]);
        } else if j >= k + 2 {
            assert(line[j] == path[j - k - 2]);
        }
    }
    lemma_index_of_or_len(line, '\n', line.len() as int);
    assert(split_lines(line) == seq![line]);
    // The first ": " ends the package list.
    assert forall|j: int| 0 <= j < k implies !#[trigger] pair_at(line, j, ':', ' ') by {
        if j + 1 < k {
            assert(!pair_at(pk, j, ':', ' '));
            assert(line[j] == pk[j] && line[j + 1] == pk[j + 1]);
        } else {
            assert(line[j + 1] == ':');
        }
    }
    assert(line[k] == ':' && line[k + 1] == ' ');
    lemma_index_of_pair_found(line, ':', ' ', k);
    assert(line.take(k) =~= pk);
    assert(line.skip(k + 2) =~= path);
    lemma_trim_of_trimmed(path);
    // The first package is `p`.
    assert forall|j: int| 0 <= j < p.len() implies pk[j] != ',' by {
        assert(pk[j] == p[j]);
    }
    lemma_index_of_or_len(pk, ',', p.len() as int);
    assert(pk.take(p.len() as int) =~= p);
    lemma_trim_of_trimmed(p);
    assert(dpkg_line_entry(line) == Some((path, p)));
    let one = seq![line];
    assert(one.drop_last() =~= Seq::<Seq<char>>::empty());
    assert(one.last() == line);
    assert(owners_from_lines(Seq::<Seq<char>>::empty()) == Map::<Seq<char>, Seq<char>>::empty());
    assert(owners_from_lines(one) == Map::<Seq<char>, Seq<char>>::empty().insert(path, p));
    assert(owners_from_lines(one) =~= map![path => p]);
    // A closing line break.
    lemma_batched_output_merges_parts(line, Seq::<char>::empty());
    assert(line + seq!['\n'] + Seq::<char>::empty() =~= line + seq!['\n']);
    assert(split_lines(Seq::<char>::empty()) =~= Seq::<Seq<char>>::empty());
    assert(map![path => p].union_prefer_right(Map::<Seq<char>, Seq<char>>::empty()) =~= map![
        path => p,
    ]);
}

} // verus!
