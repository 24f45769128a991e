use vstd::prelude::*;

use crate::table::str_eq;

verus! {

/// `p` occurs in `s` starting at position `i`.
pub open spec fn occurs_at(s: Seq<char>, p: Seq<char>, i: int) -> bool {
    0 <= i && i + p.len() <= s.len() && s.subrange(i, i + p.len()) == p
}

/// `p` occurs somewhere in `s`.
pub open spec fn contains(s: Seq<char>, p: Seq<char>) -> bool {
    exists|i: int| occurs_at(s, p, i)
}

/// `i` is the position of the first occurrence of `p` in `s`.
pub open spec fn first_occurrence(s: Seq<char>, p: Seq<char>, i: int) -> bool {
    occurs_at(s, p, i) && forall|j: int| 0 <= j < i ==> !occurs_at(s, p, j)
}

/// The marker that separates a table's name from the rest of an output file's name.
pub open spec fn marker() -> Seq<char> {
    ".tbl"@
}

/// `t` is the table name that the output file `f` carries: what stands before
/// the first occurrence of the marker.
pub open spec fn names_table(f: Seq<char>, t: Seq<char>) -> bool {
    exists|i: int| first_occurrence(f, marker(), i) && t == f.take(i)
}

/// The file `f` holds rows of table `t`: its name contains `t` followed by the marker.
pub open spec fn belongs_to(f: Seq<char>, t: Seq<char>) -> bool {
    contains(f, t + marker())
}

/// The files among `names` that hold rows of `t`, in the order given.
pub open spec fn files_of(names: Seq<Seq<char>>, t: Seq<char>) -> Seq<Seq<char>>
    decreases names.len(),
{
    if names.len() == 0 {
        seq![]
    } else {
        let rest = files_of(names.drop_last(), t);
        if belongs_to(names.last(), t) {
            rest.push(names.last())
        } else {
            rest
        }
    }
}

/// The abstract value of a list of file names.
pub open spec fn names_view(v: Seq<String>) -> Seq<Seq<char>> {
    v.map_values(|s: String| s@)
}

/// Some file of `names` carries the table name `t`.
pub open spec fn carried(names: Seq<String>, t: Seq<char>) -> bool {
    exists|j: int| 0 <= j < names.len() && #[trigger] names_table(names[j]@, t)
}

/// The output files found for one table.
#[derive(Debug)]
pub struct TableFiles {
    pub table: String,
    pub files: Vec<String>,
}

/// Whether `p` occurs in `s` at position `i`.
fn occurs_at_exec(s: &str, p: &str, i: usize) -> (r: bool)
    requires
        i + p@.len() <= s@.len() <= usize::MAX,
    ensures
        r == occurs_at(s@, p@, i as int),
{
    let m = p.unicode_len();
    let mut k: usize = 0;
    while k < m
        invariant
            m == p@.len(),
            i + m <= s@.len() <= usize::MAX,
            k <= m,
            s@.subrange(i as int, i + k) == p@.subrange(0, k as int),
        decreases m - k,
    {
        if s.get_char(i + k) != p.get_char(k) {
            assert(s@.subrange(i as int, i + m)[k as int] != p@[k as int]);
            return false;
        }
        assert(s@.subrange(i as int, i + k + 1) == s@.subrange(i as int, i + k).push(s@[i + k]));
        assert(p@.subrange(0, k + 1) == p@.subrange(0, k as int).push(p@[k as int]));
        k = k + 1;
    }
    assert(p@.subrange(0, m as int) == p@);
    true
}

/// The position of the first occurrence of `p` in `s`, if any.
pub fn find(s: &str, p: &str) -> (r: Option<usize>)
    ensures
        r matches Some(i) ==> first_occurrence(s@, p@, i as int),
        r is None ==> !contains(s@, p@),
{
    let n = s.unicode_len();
    let m = p.unicode_len();
    if m > n {
        return None;
    }
    if m == 0 {
        assert(s@.subrange(0, 0) =~= p@);
        return Some(0);
    }
    let mut i: usize = 0;
    while i <= n - m
        invariant
            n == s@.len(),
            m == p@.len(),
            0 < m <= n,
            i <= n - m + 1,
            forall|j: int| 0 <= j < i ==> !occurs_at(s@, p@, j),
        decreases n - m + 1 - i,
    {
        if occurs_at_exec(s, p, i) {
            return Some(i);
        }
        i = i + 1;
    }
    None
}

/// The table name that an output file's name carries, or `None` where the
/// name does not contain the marker (such a file is not generator output).
pub fn table_prefix(file: &str) -> (r: Option<String>)
    ensures
        r matches Some(t) ==> names_table(file@, t@),
        r is None <==> !contains(file@, marker()),
{
    proof {
        reveal_strlit(".tbl");
    }
    match find(file, ".tbl") {
        Some(i) => {
            let t = file.substring_char(0, i);
            assert(t@ == file@.take(i as int));
            Some(String::from_str(t))
        },
        None => {
            None
        },
    }
}

/// Whether the file named `file` holds rows of `table`.
pub fn file_belongs_to(file: &str, table: &str) -> (r: bool)
    ensures
        r == belongs_to(file@, table@),
{
    let pattern = String::from_str(table).concat(".tbl");
    proof {
        reveal_strlit(".tbl");
    }
    find(file, pattern.as_str()).is_some()
}

/// The files among `names` that hold rows of `table`, in the order given.
pub fn files_for(names: &Vec<String>, table: &str) -> (r: Vec<String>)
    ensures
        names_view(r@) == files_of(names_view(names@), table@),
{
    let ghost all = names_view(names@);
    let mut out: Vec<String> = Vec::new();
    let mut i: usize = 0;
    assert(all.take(0) =~= seq![]);
    while i < names.len()
        invariant
            all == names_view(names@),
            i <= names.len(),
            names_view(out@) == files_of(all.take(i as int), table@),
        decreases names.len() - i,
    {
        assert(all.take(i + 1).drop_last() =~= all.take(i as int));
        let f = names[i].clone();
        if file_belongs_to(f.as_str(), table) {
            out.push(f);
        }
        assert(names_view(out@) =~= files_of(all.take(i + 1), table@));
        i = i + 1;
    }
    assert(all.take(names.len() as int) =~= all);
    out
}

/// `r` groups the listing `names` by table: one entry per table name that some
/// file carries and no other, each with all of that table's files, ordered by
/// shard index.
pub open spec fn grouped(names: Seq<String>, r: Seq<TableFiles>) -> bool {
    &&& forall|k: int| 0 <= k < r.len() ==> carried(names, #[trigger] r[k].table@)
    &&& forall|j: int, t: Seq<char>| 0 <= j < names.len() && #[trigger] names_table(names[j]@, t) ==>
        exists|k: int| 0 <= k < r.len() && #[trigger] r[k].table@ == t
    &&& forall|k1: int, k2: int| 0 <= k1 < k2 < r.len() ==> r[k1].table@ != r[k2].table@
    &&& forall|k: int| 0 <= k < r.len() ==>
        names_view(#[trigger] r[k].files@).to_multiset() == files_of(names_view(names), r[k].table@).to_multiset()
    &&& forall|k: int| 0 <= k < r.len() ==> shards_ordered(names_view(#[trigger] r[k].files@))
}

/// The set of table names that a grouping lists.
pub open spec fn group_names(r: Seq<TableFiles>) -> Set<Seq<char>> {
    Set::new(|t: Seq<char>| exists|k: int| 0 <= k < r.len() && #[trigger] r[k].table@ == t)
}

/// Grouping the same listing twice finds the same tables: the set of table
/// names depends on the file names alone.
pub proof fn lemma_discovery_repeatable(names: Seq<String>, r1: Seq<TableFiles>, r2: Seq<TableFiles>)
    requires
        grouped(names, r1),
        grouped(names, r2),
    ensures
        group_names(r1) == group_names(r2),
{
    assert forall|t: Seq<char>| group_names(r1).contains(t) implies group_names(r2).contains(t) by {
        let k = choose|k: int| 0 <= k < r1.len() && #[trigger] r1[k].table@ == t;
        assert(carried(names, r1[k].table@));
        let j = choose|j: int| 0 <= j < names.len() && #[trigger] names_table(names[j]@, t);
    }
    assert forall|t: Seq<char>| group_names(r2).contains(t) implies group_names(r1).contains(t) by {
        let k = choose|k: int| 0 <= k < r2.len() && #[trigger] r2[k].table@ == t;
        assert(carried(names, r2[k].table@));
        let j = choose|j: int| 0 <= j < names.len() && #[trigger] names_table(names[j]@, t);
    }
    assert(group_names(r1) =~= group_names(r2));
}

/// Groups the files of a directory listing by the table whose rows they hold.
/// The result has one entry per table name that some file carries, and no
/// other; each entry lists all of that table's files, so a table written as
/// several shards gets every shard, ordered by shard index.
pub fn discover(names: &Vec<String>) -> (r: Vec<TableFiles>)
    ensures
        grouped(names@, r@),
{
    let mut tables: Vec<String> = Vec::new();
    let mut i: usize = 0;
    while i < names.len()
        invariant
            i <= names.len(),
            forall|k: int| 0 <= k < tables@.len() ==> carried(names@, #[trigger] tables@[k]@),
            forall|j: int, t: Seq<char>| 0 <= j < i && #[trigger] names_table(names@[j]@, t) ==>
                exists|k: int| 0 <= k < tables@.len() && #[trigger] tables@[k]@ == t,
            forall|k1: int, k2: int| 0 <= k1 < k2 < tables@.len() ==> tables@[k1]@ != tables@[k2]@,
        decreases names.len() - i,
    {
        let ghost old_tables = tables@;
        if let Some(t) = table_prefix(names[i].as_str()) {
            let mut seen = false;
            let mut k: usize = 0;
            while k < tables.len()
                invariant
                    tables@ == old_tables,
                    k <= tables.len(),
                    seen ==> exists|q: int| 0 <= q < tables@.len() && #[trigger] tables@[q]@ == t@,
                    !seen ==> forall|q: int| 0 <= q < k ==> tables@[q]@ != t@,
                decreases tables.len() - k,
            {
                if str_eq(tables[k].as_str(), t.as_str()) {
                    seen = true;
                }
                k = k + 1;
            }
            assert(names_table(names@[i as int]@, t@));
            if !seen {
                tables.push(t);
                assert(tables@[tables@.len() - 1]@ == t@);
                assert forall|q: int| 0 <= q < tables@.len() implies carried(names@, #[trigger] tables@[q]@) by {
                    if q < old_tables.len() {
                        assert(tables@[q] == old_tables[q]);
                    } else {
                        assert(names_table(names@[i as int]@, tables@[q]@));
                    }
                }
            } else {
                assert(tables@ == old_tables);
            }
            assert forall|j: int, u: Seq<char>| 0 <= j < i + 1 && #[trigger] names_table(names@[j]@, u)
                implies exists|k: int| 0 <= k < tables@.len() && #[trigger] tables@[k]@ == u by {
                if j < i {
                    let k = choose|k: int| 0 <= k < old_tables.len() && #[trigger] old_tables[k]@ == u;
                    assert(tables@[k] == old_tables[k]);
                } else {
                    let a = choose|a: int| first_occurrence(names@[j]@, marker(), a) && u == names@[j]@.take(a);
                    let b = choose|b: int| first_occurrence(names@[j]@, marker(), b) && t@ == names@[j]@.take(b);
                    assert(a == b) by {
                        if a < b {
                            assert(!occurs_at(names@[j]@, marker(), a));
                        } else if b < a {
                            assert(!occurs_at(names@[j]@, marker(), b));
                        }
                    }
                    if !seen {
                        assert(tables@[tables@.len() - 1]@ == u);
                    }
                }
            }
        } else {
            assert forall|j: int, u: Seq<char>| 0 <= j < i + 1 && #[trigger] names_table(names@[j]@, u)
                implies exists|k: int| 0 <= k < tables@.len() && #[trigger] tables@[k]@ == u by {
                if j == i {
                    let a = choose|a: int| first_occurrence(names@[j]@, marker(), a) && u == names@[j]@.take(a);
                    assert(occurs_at(names@[j]@, marker(), a));
                }
            }
        }
        i = i + 1;
    }
    let mut r: Vec<TableFiles> = Vec::new();
    let mut k: usize = 0;
    while k < tables.len()
        invariant
            k <= tables.len(),
            r@.len() == k,
            forall|q: int| 0 <= q < tables@.len() ==> carried(names@, #[trigger] tables@[q]@),
            forall|q: int| 0 <= q < k ==> (#[trigger] r@[q]).table@ == tables@[q]@,
            forall|q: int| 0 <= q < k ==>
                names_view(#[trigger] r@[q].files@).to_multiset() == files_of(names_view(names@), r@[q].table@).to_multiset(),
            forall|q: int| 0 <= q < k ==> shards_ordered(names_view(#[trigger] r@[q].files@)),
        decreases tables.len() - k,
    {
        let files = order_shards(&files_for(names, tables[k].as_str()));
        r.push(TableFiles { table: tables[k].clone(), files });
        k = k + 1;
    }
    assert forall|j: int, t: Seq<char>| 0 <= j < names@.len() && #[trigger] names_table(names@[j]@, t)
        implies exists|q: int| 0 <= q < r@.len() && #[trigger] r@[q].table@ == t by {
        let q = choose|q: int| 0 <= q < tables@.len() && #[trigger] tables@[q]@ == t;
        assert(r@[q].table@ == t);
    }
    assert forall|q: int| 0 <= q < r@.len() implies carried(names@, #[trigger] r@[q].table@) by {
        assert(r@[q].table@ == tables@[q]@);
    }
    r
}

/// Whether `c` is a decimal digit.
pub open spec fn is_digit(c: char) -> bool {
    '0' <= c <= '9'
}

/// The value of a decimal digit.
pub open spec fn digit_value(c: char) -> int {
    c as int - '0' as int
}

/// One more digit appended to `v`, saturating at the largest `u64`.
pub open spec fn append_digit(v: u64, c: char) -> u64 {
    let w = v as int * 10 + digit_value(c);
    if w > u64::MAX as int {
        u64::MAX
    } else {
        w as u64
    }
}

/// The shard index that a file name ends with: the value of its trailing
/// decimal digits (`orders.tbl.12` is shard 12), or 0 where it ends with none
/// (`orders.tbl`, the single file of an unpartitioned run).
pub open spec fn shard_number(s: Seq<char>) -> u64
    decreases s.len(),
{
    if s.len() == 0 || !is_digit(s.last()) {
        0
    } else {
        append_digit(shard_number(s.drop_last()), s.last())
    }
}

pub(crate) fn is_digit_char(c: char) -> (r: bool)
    ensures
        r == is_digit(c),
{
    '0' <= c && c <= '9'
}

/// `v` with the digit `c` appended, saturating at the largest `u64`.
pub(crate) fn push_digit(v: u64, c: char) -> (r: u64)
    requires
        is_digit(c),
    ensures
        r == append_digit(v, c),
{
    let d = (c as u32 - '0' as u32) as u128;
    let w: u128 = (v as u128) * 10 + d;
    if w > u64::MAX as u128 {
        u64::MAX
    } else {
        w as u64
    }
}

/// The first occurrence of a pattern is unique.
pub proof fn lemma_first_occurrence_unique(s: Seq<char>, p: Seq<char>, i: int, j: int)
    requires
        first_occurrence(s, p, i),
        first_occurrence(s, p, j),
    ensures
        i == j,
{
    if i < j {
        assert(occurs_at(s, p, i));
    } else if j < i {
        assert(occurs_at(s, p, j));
    }
}

/// The shard index of a file name.
pub fn shard_index(name: &str) -> (r: u64)
    ensures
        r == shard_number(name@),
{
    let n = name.unicode_len();
    let mut start: usize = n;
    while start > 0 && is_digit_char(name.get_char(start - 1))
        invariant
            n == name@.len(),
            start <= n,
            forall|m: int| start < m <= n ==> is_digit(#[trigger] name@[m - 1]),
        decreases start,
    {
        start = start - 1;
    }
    assert(shard_number(name@.take(start as int)) == 0) by {
        if start > 0 {
            assert(name@.take(start as int).last() == name@[start - 1]);
        }
    }
    let mut v: u64 = 0;
    let mut m: usize = start;
    while m < n
        invariant
            n == name@.len(),
            start <= m <= n,
            forall|q: int| start < q <= n ==> is_digit(#[trigger] name@[q - 1]),
            v == shard_number(name@.take(m as int)),
        decreases n - m,
    {
        let c = name.get_char(m);
        assert(is_digit(name@[(m + 1) - 1]));
        v = push_digit(v, c);
        assert(name@.take(m + 1).drop_last() =~= name@.take(m as int));
        assert(name@.take(m + 1).last() == c);
        m = m + 1;
    }
    assert(name@.take(n as int) =~= name@);
    v
}

/// `s` is in ascending order of shard index.
pub open spec fn shards_ordered(s: Seq<Seq<char>>) -> bool {
    forall|i: int, j: int| 0 <= i < j < s.len() ==> shard_number(s[i]) <= shard_number(s[j])
}

/// Orders the files of one table by shard index, so that the join of the
/// shards does not depend on the order in which a directory lists them.
pub fn order_shards(files: &Vec<String>) -> (r: Vec<String>)
    ensures
        names_view(r@).to_multiset() == names_view(files@).to_multiset(),
        shards_ordered(names_view(r@)),
{
    let ghost all = names_view(files@);
    let mut out: Vec<String> = Vec::new();
    let mut keys: Vec<u64> = Vec::new();
    let mut i: usize = 0;
    assert(all.take(0) =~= seq![]);
    assert(names_view(out@) =~= seq![]);
    while i < files.len()
        invariant
            all == names_view(files@),
            i <= files@.len(),
            keys@.len() == out@.len(),
            forall|j: int| 0 <= j < out@.len() ==> keys@[j] == shard_number(#[trigger] out@[j]@),
            shards_ordered(names_view(out@)),
            names_view(out@).to_multiset() == all.take(i as int).to_multiset(),
        decreases files@.len() - i,
    {
        let f = files[i].clone();
        let k = shard_index(f.as_str());
        let mut p: usize = 0;
        while p < keys.len() && keys[p] <= k
            invariant
                p <= keys@.len(),
                forall|j: int| 0 <= j < p ==> keys@[j] <= k,
            decreases keys@.len() - p,
        {
            p = p + 1;
        }
        let ghost before = names_view(out@);
        let ghost old_keys = keys@;
        out.insert(p, f);
        keys.insert(p, k);
        assert(names_view(out@) =~= before.insert(p as int, files@[i as int]@));
        assert(all.take(i + 1) =~= all.take(i as int).push(all[i as int]));
        proof {
            broadcast use vstd::seq_lib::to_multiset_insert, vstd::seq_lib::to_multiset_build;

            assert(names_view(out@).to_multiset() == before.to_multiset().insert(all[i as int]));
            let now = names_view(out@);
            assert(forall|j: int| 0 <= j < before.len() ==> shard_number(#[trigger] before[j]) == old_keys[j]);
            assert(p < old_keys.len() ==> k < old_keys[p as int]);
            assert forall|a: int, b: int| 0 <= a < b < now.len() implies shard_number(now[a])
                <= shard_number(now[b]) by {
                if b < p {
                    assert(now[a] == before[a] && now[b] == before[b]);
                } else if b == p {
                    assert(now[a] == before[a] && now[b] == all[i as int]);
                } else if a < p {
                    assert(now[a] == before[a] && now[b] == before[b - 1]);
                } else if a == p {
                    assert(now[b] == before[b - 1]);
                    assert(shard_number(before[p as int]) <= shard_number(before[b - 1]));
                } else {
                    assert(now[a] == before[a - 1] && now[b] == before[b - 1]);
                }
            }
        }
        i = i + 1;
    }
    assert(all.take(files@.len() as int) =~= all);
    out
}

} // verus!
