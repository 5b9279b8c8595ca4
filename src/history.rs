use crate::chars::{chars_of, digit, hex, is_digit, is_hex, is_space, space};
use crate::sighting::{or_fresh, record_spec, MacView, SightingIndex};
use vstd::prelude::*;
use vstd::string::*;

verus! {

/// The kinds of character run that a sighting line is made of.
pub enum Run {
    Digits,
    Spaces,
    Word,
}

pub open spec fn in_run(c: char, k: Run) -> bool {
    match k {
        Run::Digits => is_digit(c),
        Run::Spaces => is_space(c),
        Run::Word => !is_space(c),
    }
}

/// The end of the longest run of kind `k` that starts at `i`.
pub open spec fn run_end(l: Seq<char>, i: int, k: Run) -> int
    decreases l.len() - i,
{
    if 0 <= i < l.len() && in_run(l[i], k) {
        run_end(l, i + 1, k)
    } else {
        i
    }
}

/// The end of the longest MAC token that starts at `i`: hexadecimal digits
/// in groups, each group followed by at most one comma.
pub open spec fn token_end(l: Seq<char>, i: int) -> int
    decreases l.len() - i,
{
    if 0 <= i < l.len() && (is_hex(l[i]) || (l[i] == ',' && 0 < i && is_hex(l[i - 1]))) {
        token_end(l, i + 1)
    } else {
        i
    }
}

/// The date stamp and the MAC token of a sighting line, or `None` where the
/// line does not have the shape of one.  A sighting line starts with a stamp
/// (digits, an underscore, digits), then three words, then the MAC token,
/// each of them after white space; whatever follows the token is ignored.
pub open spec fn sighting_of(l: Seq<char>) -> Option<(Seq<char>, Seq<char>)> {
    let a = run_end(l, 0, Run::Digits);
    let b = run_end(l, a + 1, Run::Digits);
    let c = run_end(l, b, Run::Spaces);
    let d = run_end(l, c, Run::Word);
    let e = run_end(l, d, Run::Spaces);
    let f = run_end(l, e, Run::Word);
    let g = run_end(l, f, Run::Spaces);
    let h = run_end(l, g, Run::Word);
    let i = run_end(l, h, Run::Spaces);
    if a > 0 && a < l.len() && l[a] == '_' && b > a + 1 && c > b && d > c && e > d && f > e && g
        > f && h > g && i > h && i < l.len() && is_hex(l[i]) {
        Some((l.subrange(0, b), l.subrange(i, token_end(l, i))))
    } else {
        None
    }
}

fn in_run_exec(c: char, k: &Run) -> (r: bool)
    ensures
        r == in_run(c, *k),
{
    match k {
        Run::Digits => digit(c),
        Run::Spaces => space(c),
        Run::Word => !space(c),
    }
}

fn scan_run(l: &Vec<char>, i: usize, k: Run) -> (r: usize)
    requires
        i <= l.len(),
    ensures
        r == run_end(l@, i as int, k),
        i <= r <= l.len(),
{
    let mut j = i;
    while j < l.len() && in_run_exec(l[j], &k)
        invariant
            i <= j <= l.len(),
            run_end(l@, j as int, k) == run_end(l@, i as int, k),
        decreases l.len() - j,
    {
        j += 1;
    }
    j
}

fn scan_token(l: &Vec<char>, i: usize) -> (r: usize)
    requires
        i <= l.len(),
    ensures
        r == token_end(l@, i as int),
        i <= r <= l.len(),
{
    let mut j = i;
    while j < l.len() && (hex(l[j]) || (l[j] == ',' && 0 < j && hex(l[j - 1])))
        invariant
            i <= j <= l.len(),
            token_end(l@, j as int) == token_end(l@, i as int),
        decreases l.len() - j,
    {
        j += 1;
    }
    j
}

/// Reads one line of the sighting log: its date stamp and its MAC token, or
/// `None` where the line has another shape.
pub fn parse_sighting(line: &str) -> (r: Option<(String, String)>)
    ensures
        match r {
            Some((date, mac)) => sighting_of(line@) == Some((date@, mac@)),
            None => sighting_of(line@) is None,
        },
{
    let l = chars_of(line);
    let n = l.len();
    let a = scan_run(&l, 0, Run::Digits);
    if a == 0 || a >= n || l[a] != '_' {
        return None;
    }
    let b = scan_run(&l, a + 1, Run::Digits);
    if b == a + 1 {
        return None;
    }
    let c = scan_run(&l, b, Run::Spaces);
    let d = scan_run(&l, c, Run::Word);
    let e = scan_run(&l, d, Run::Spaces);
    let f = scan_run(&l, e, Run::Word);
    let g = scan_run(&l, f, Run::Spaces);
    let h = scan_run(&l, g, Run::Word);
    let i = scan_run(&l, h, Run::Spaces);
    if c > b && d > c && e > d && f > e && g > f && h > g && i > h && i < n && hex(l[i]) {
        let t = scan_token(&l, i);
        let date = String::from_str(line.substring_char(0, b));
        let mac = String::from_str(line.substring_char(i, t));
        Some((date, mac))
    } else {
        None
    }
}

/// The index built from the sighting lines `ls`, taken in order.
pub open spec fn index_of(ls: Seq<Seq<char>>) -> Map<Seq<char>, MacView>
    decreases ls.len(),
{
    if ls.len() == 0 {
        Map::empty()
    } else {
        let prev = index_of(ls.drop_last());
        match sighting_of(ls.last()) {
            Some((date, mac)) => prev.insert(mac, record_spec(or_fresh(prev.get(mac)), date)),
            None => prev,
        }
    }
}

/// Builds the sighting index from the lines of the log; lines of another
/// shape are passed over.
pub fn load_history(lines: &Vec<String>) -> (r: SightingIndex)
    ensures
        r.wf(),
        r@ == index_of(lines@.map_values(|s: String| s@)),
{
    let ghost ls = lines@.map_values(|s: String| s@);
    let mut index = SightingIndex::new();
    let mut k: usize = 0;
    while k < lines.len()
        invariant
            k <= lines.len(),
            ls == lines@.map_values(|s: String| s@),
            index.wf(),
            index@ == index_of(ls.subrange(0, k as int)),
        decreases lines.len() - k,
    {
        assert(ls.subrange(0, k + 1).drop_last() =~= ls.subrange(0, k as int));
        match parse_sighting(lines[k].as_str()) {
            Some((date, mac)) => index.record(mac, date),
            None => {},
        }
        k += 1;
    }
    assert(ls.subrange(0, lines.len() as int) =~= ls);
    index
}

} // verus!
