use crate::chars::{chars_of, is_space, space};
use vstd::prelude::*;
use vstd::string::*;

verus! {

/// A line that opens with `#`.
pub open spec fn is_comment(l: Seq<char>) -> bool {
    l.len() > 0 && l[0] == '#'
}

/// A line made of white space alone (or of nothing).
pub open spec fn is_blank(l: Seq<char>) -> bool {
    forall|i: int| 0 <= i < l.len() ==> is_space(#[trigger] l[i])
}

/// `p` stands in `l` at position `i`.
pub open spec fn occurs_at(l: Seq<char>, p: Seq<char>, i: int) -> bool {
    0 <= i && i + p.len() <= l.len() && l.subrange(i, i + p.len()) == p
}

pub open spec fn contains(l: Seq<char>, p: Seq<char>) -> bool {
    exists|i: int| occurs_at(l, p, i)
}

/// Some pattern of `ex` stands somewhere in `l`.
pub open spec fn is_excluded(l: Seq<char>, ex: Seq<Seq<char>>) -> bool {
    exists|j: int| 0 <= j < ex.len() && contains(l, #[trigger] ex[j])
}

/// A line that names no host: a comment, a blank line, or one that holds an
/// excluded name.
pub open spec fn is_skipped(l: Seq<char>, ex: Seq<Seq<char>>) -> bool {
    is_comment(l) || is_blank(l) || is_excluded(l, ex)
}

/// The positions of `%` among the first `n` characters of `l`, in order.
pub open spec fn separators(l: Seq<char>, n: int) -> Seq<int>
    decreases n,
{
    if n <= 0 {
        Seq::empty()
    } else if l[n - 1] == '%' {
        separators(l, n - 1).push(n - 1)
    } else {
        separators(l, n - 1)
    }
}

/// The `%` positions of the whole line.
pub open spec fn seps(l: Seq<char>) -> Seq<int> {
    separators(l, l.len() as int)
}

/// The number of `%`-separated fields of `l`.
pub open spec fn field_count(l: Seq<char>) -> int {
    seps(l).len() + 1int
}

/// Field `k` of `l`, the text between the `k`th `%` and the next one.
pub open spec fn field(l: Seq<char>, k: int) -> Seq<char> {
    let p = seps(l);
    let start = if k == 0 { 0 } else { p[k - 1] + 1 };
    let end = if k < p.len() { p[k] } else { l.len() as int };
    l.subrange(start, end)
}

/// The fields of an inventory line that name a host.
pub struct HostEntry {
    pub ip: String,
    pub host: String,
    /// The MAC address as written, with its separators.
    pub mac: String,
}

/// What one inventory line holds.
pub enum InventoryLine {
    /// A comment, a blank line or an excluded host.
    Skipped,
    /// A line with fewer than nine `%`-separated fields.
    Malformed,
    /// Fields 0, 1 and 8 of the line.
    Host(HostEntry),
}

/// The excluded host names as character sequences.
pub open spec fn views(v: Seq<String>) -> Seq<Seq<char>> {
    v.map_values(|s: String| s@)
}

fn occurs_here(l: &Vec<char>, p: &Vec<char>, i: usize) -> (r: bool)
    requires
        i + p.len() <= l.len(),
    ensures
        r == occurs_at(l@, p@, i as int),
{
    let mut j: usize = 0;
    while j < p.len()
        invariant
            i + p.len() <= l.len(),
            j <= p.len(),
            l@.subrange(i as int, i + j) == p@.subrange(0, j as int),
        decreases p.len() - j,
    {
        if l[i + j] != p[j] {
            assert(l@.subrange(i as int, i + p.len())[j as int] != p@[j as int]);
            return false;
        }
        j += 1;
        assert(l@.subrange(i as int, i + j) =~= p@.subrange(0, j as int));
    }
    assert(p@.subrange(0, p.len() as int) =~= p@);
    true
}

/// Whether `p` stands anywhere in `l`.
pub fn contains_text(l: &Vec<char>, p: &Vec<char>) -> (r: bool)
    ensures
        r == contains(l@, p@),
{
    if p.len() > l.len() {
        return false;
    }
    let last = l.len() - p.len();
    let mut i: usize = 0;
    loop
        invariant
            last == l.len() - p.len(),
            p.len() <= l.len(),
            i <= last,
            forall|k: int| 0 <= k < i ==> !occurs_at(l@, p@, k),
        decreases last - i,
    {
        if occurs_here(l, p, i) {
            return true;
        }
        if i == last {
            return false;
        }
        i += 1;
    }
}

fn blank(l: &Vec<char>) -> (r: bool)
    ensures
        r == is_blank(l@),
{
    let mut i: usize = 0;
    while i < l.len()
        invariant
            i <= l.len(),
            forall|k: int| 0 <= k < i ==> is_space(#[trigger] l@[k]),
        decreases l.len() - i,
    {
        if !space(l[i]) {
            return false;
        }
        i += 1;
    }
    true
}

/// Whether the line `l` holds one of the names of `exclusions`.
pub fn excluded(l: &Vec<char>, exclusions: &Vec<String>) -> (r: bool)
    ensures
        r == is_excluded(l@, views(exclusions@)),
{
    let ghost ex = views(exclusions@);
    let mut j: usize = 0;
    while j < exclusions.len()
        invariant
            j <= exclusions.len(),
            ex == views(exclusions@),
            forall|k: int| 0 <= k < j ==> !contains(l@, #[trigger] ex[k]),
        decreases exclusions.len() - j,
    {
        let p = chars_of(exclusions[j].as_str());
        if contains_text(l, &p) {
            assert(contains(l@, ex[j as int]));
            return true;
        }
        j += 1;
    }
    false
}

/// The positions of `%` in `l`.
fn separator_positions(l: &Vec<char>) -> (r: Vec<usize>)
    ensures
        r@.map_values(|x: usize| x as int) == seps(l@),
        forall|k: int| 0 <= k < r.len() ==> r@[k] < l.len(),
        forall|a: int, b: int| 0 <= a < b < r.len() ==> r@[a] < r@[b],
{
    let mut r: Vec<usize> = Vec::new();
    let mut i: usize = 0;
    while i < l.len()
        invariant
            i <= l.len(),
            r@.map_values(|x: usize| x as int) == separators(l@, i as int),
            forall|k: int| 0 <= k < r.len() ==> r@[k] < i,
            forall|a: int, b: int| 0 <= a < b < r.len() ==> r@[a] < r@[b],
        decreases l.len() - i,
    {
        if l[i] == '%' {
            r.push(i);
        }
        i += 1;
        assert(r@.map_values(|x: usize| x as int) =~= separators(l@, i as int));
    }
    r
}

/// Field `k` of `line`, whose characters are `l` and whose `%` positions are
/// `p`.
fn field_text(line: &str, l: &Vec<char>, p: &Vec<usize>, k: usize) -> (r: String)
    requires
        l@ == line@,
        p@.map_values(|x: usize| x as int) == seps(l@),
        forall|i: int| 0 <= i < p.len() ==> p@[i] < l.len(),
        forall|a: int, b: int| 0 <= a < b < p.len() ==> p@[a] < p@[b],
        k <= p.len(),
    ensures
        r@ == field(line@, k as int),
{
    let ghost q = p@.map_values(|x: usize| x as int);
    let start = if k == 0 {
        0
    } else {
        p[k - 1] + 1
    };
    let end = if k < p.len() {
        p[k]
    } else {
        l.len()
    };
    assert(k > 0 ==> q[k - 1] == p@[k - 1]);
    assert(k < p.len() ==> q[k as int] == p@[k as int]);
    String::from_str(line.substring_char(start, end))
}

/// Reads one inventory line against the excluded host names: a skipped line
/// names no host, a line with fewer than nine `%`-separated fields is
/// malformed, and any other gives its fields 0, 1 and 8.
pub fn read_inventory_line(line: &str, exclusions: &Vec<String>) -> (r: InventoryLine)
    ensures
        is_skipped(line@, views(exclusions@)) <==> r is Skipped,
        !is_skipped(line@, views(exclusions@)) && field_count(line@) < 9 <==> r is Malformed,
        match r {
            InventoryLine::Host(e) => e.ip@ == field(line@, 0) && e.host@ == field(line@, 1)
                && e.mac@ == field(line@, 8),
            _ => true,
        },
{
    let l = chars_of(line);
    if (l.len() > 0 && l[0] == '#') || blank(&l) || excluded(&l, exclusions) {
        return InventoryLine::Skipped;
    }
    let p = separator_positions(&l);
    if p.len() < 8 {
        return InventoryLine::Malformed;
    }
    let ip = field_text(line, &l, &p, 0);
    let host = field_text(line, &l, &p, 1);
    let mac = field_text(line, &l, &p, 8);
    InventoryLine::Host(HostEntry { ip, host, mac })
}

/// `s` without the separators `-` and `:`.
pub open spec fn strip_separators(s: Seq<char>) -> Seq<char>
    decreases s.len(),
{
    if s.len() == 0 {
        s
    } else if s.last() == '-' || s.last() == ':' {
        strip_separators(s.drop_last())
    } else {
        strip_separators(s.drop_last()).push(s.last())
    }
}

/// The upper-case form of `s` as std's `str::to_uppercase` gives it.
pub uninterp spec fn upper_of(s: Seq<char>) -> Seq<char>;

/// Relies on std's `str::to_uppercase`: its result depends on the characters
/// alone.
#[verifier::external_body]
fn upper(s: &str) -> (r: String)
    ensures
        r@ == upper_of(s@),
{
    s.to_uppercase()
}

/// The MAC address `raw` without separators.
pub fn strip_mac(raw: &str) -> (r: String)
    ensures
        r@ == strip_separators(raw@),
{
    let l = chars_of(raw);
    let mut out = String::new();
    let mut i: usize = 0;
    while i < l.len()
        invariant
            l@ == raw@,
            i <= l.len(),
            out@ == strip_separators(raw@.subrange(0, i as int)),
        decreases l.len() - i,
    {
        let ghost before = out@;
        assert(raw@.subrange(0, i + 1).drop_last() =~= raw@.subrange(0, i as int));
        if l[i] != '-' && l[i] != ':' {
            let piece = raw.substring_char(i, i + 1);
            out.append(piece);
            assert(piece@ =~= seq![l@[i as int]]);
            assert(out@ =~= before.push(l@[i as int]));
        }
        i += 1;
    }
    assert(raw@.subrange(0, l.len() as int) =~= raw@);
    out
}

/// The key under which the MAC address `raw` is indexed: without separators,
/// in upper case.
pub fn normalize_mac(raw: &str) -> (r: String)
    ensures
        r@ == upper_of(strip_separators(raw@)),
{
    let s = strip_mac(raw);
    upper(s.as_str())
}

} // verus!
