use crate::history::{index_of, load_history};
use crate::inventory::{
    field, field_count, is_skipped, normalize_mac, read_inventory_line, strip_separators,
    upper_of, views, InventoryLine,
};
use crate::months::{elapsed_months, elapsed_spec, DateError, YearMonth};
use crate::sighting::{MacView, SightingIndex};
use vstd::prelude::*;
use vstd::string::*;

verus! {

/// The settings of a scan: the least number of months after which a host is
/// reported, and the names whose inventory lines are passed over.
pub struct Config {
    pub threshold: i64,
    pub exclusions: Vec<String>,
}

impl Config {
    /// A threshold of six months, and the placeholder hosts `host13` and
    /// `host42` excluded.
    pub fn standard() -> (r: Config)
        ensures
            r.threshold == 6,
            views(r.exclusions@) == seq!["host13"@, "host42"@],
    {
        let mut exclusions: Vec<String> = Vec::new();
        exclusions.push(String::from_str("host13"));
        exclusions.push(String::from_str("host42"));
        let r = Config { threshold: 6, exclusions };
        assert(views(r.exclusions@) =~= seq!["host13"@, "host42"@]);
        r
    }
}

/// A host whose MAC address was last seen too long ago.
pub struct StaleHost {
    pub ip: String,
    pub host: String,
    /// The MAC address as indexed: no separators, upper case.
    pub mac: String,
    pub months: i64,
}

/// A reported host in the abstract: address, host name, MAC key, months.
pub type StaleView = (Seq<char>, Seq<char>, Seq<char>, int);

impl View for StaleHost {
    type V = StaleView;

    open spec fn view(&self) -> StaleView {
        (self.ip@, self.host@, self.mac@, self.months as int)
    }
}

/// A decimal digit.
pub open spec fn digit_char(d: nat) -> char {
    if d == 0 { '0' } else if d == 1 { '1' } else if d == 2 { '2' } else if d == 3 { '3' }
    else if d == 4 { '4' } else if d == 5 { '5' } else if d == 6 { '6' } else if d == 7 { '7' }
    else if d == 8 { '8' } else { '9' }
}

/// The decimal digits of `n`, with no leading zero.
pub open spec fn digits_text(n: nat) -> Seq<char>
    decreases n,
{
    if n < 10 {
        seq![digit_char(n)]
    } else {
        digits_text(n / 10).push(digit_char(n % 10))
    }
}

/// `n` in decimal, with a leading `-` where it is negative.
pub open spec fn decimal_text(n: int) -> Seq<char> {
    if n < 0 {
        seq!['-'] + digits_text((-n) as nat)
    } else {
        digits_text(n as nat)
    }
}

/// Relies on std's `ToString` for `i64`, which writes the number in decimal
/// as `Display` does.
#[verifier::external_body]
fn decimal(n: i64) -> (r: String)
    ensures
        r@ == decimal_text(n as int),
{
    n.to_string()
}

/// The report line of a stale host.
pub open spec fn report_text(v: StaleView) -> Seq<char> {
    "DING! "@ + v.0 + " "@ + v.1 + " "@ + v.2 + " Months: "@ + decimal_text(v.3)
}

impl StaleHost {
    /// The report line: `DING! <ip> <host> <mac> Months: <n>`.
    pub fn line(&self) -> (r: String)
        ensures
            r@ == report_text(self@),
    {
        let mut r = String::from_str("DING! ");
        r.append(self.ip.as_str());
        r.append(" ");
        r.append(self.host.as_str());
        r.append(" ");
        r.append(self.mac.as_str());
        r.append(" Months: ");
        let n = decimal(self.months);
        r.append(n.as_str());
        r
    }
}

/// Why an inventory line could not be checked.
#[derive(Clone, Copy, Debug, PartialEq, Eq, Structural)]
pub enum ScanError {
    /// The line has fewer than nine `%`-separated fields.
    Malformed,
    /// A date recorded for the host's MAC address does not read.
    BadDate(DateError),
}

/// The months that the record `m` spans: from its one date to `now`, or
/// from its first date to its second.
pub open spec fn months_of(m: MacView, now: YearMonth) -> Result<int, DateError> {
    if m.dates.len() == 1 {
        elapsed_spec(m.dates[0], None, now)
    } else {
        elapsed_spec(m.dates[0], Some(m.dates[1]), now)
    }
}

/// The months to report for the MAC key `mac`: `None` where it has no
/// record or its record spans fewer than `threshold` months.
pub open spec fn stale_months(
    index: Map<Seq<char>, MacView>,
    mac: Seq<char>,
    now: YearMonth,
    threshold: int,
) -> Result<Option<int>, DateError> {
    if !index.contains_key(mac) {
        Ok(None)
    } else {
        match months_of(index[mac], now) {
            Err(e) => Err(e),
            Ok(n) => if n >= threshold {
                Ok(Some(n))
            } else {
                Ok(None)
            },
        }
    }
}

/// Checks the host `ip`, `host` with the MAC key `mac` against the index:
/// a report where its record spans at least `threshold` months.
pub fn assess(
    index: &SightingIndex,
    ip: &str,
    host: &str,
    mac: &str,
    now: YearMonth,
    threshold: i64,
) -> (r: Result<Option<StaleHost>, DateError>)
    requires
        index.wf(),
    ensures
        match (r, stale_months(index@, mac@, now, threshold as int)) {
            (Ok(None), Ok(None)) => true,
            (Ok(Some(s)), Ok(Some(n))) => s@ == (ip@, host@, mac@, n),
            (Err(a), Err(b)) => a == b,
            _ => false,
        },
{
    let m = match index.lookup(mac) {
        None => return Ok(None),
        Some(m) => m,
    };
    let dates = m.dates();
    assert(dates@.map_values(|s: String| s@)[0] == dates@[0]@);
    let n = if dates.len() == 1 {
        elapsed_months(dates[0].as_str(), None, now)
    } else {
        assert(dates@.map_values(|s: String| s@)[1] == dates@[1]@);
        elapsed_months(dates[0].as_str(), Some(dates[1].as_str()), now)
    };
    match n {
        Err(e) => Err(e),
        Ok(n) => if n >= threshold {
            Ok(
                Some(
                    StaleHost {
                        ip: String::from_str(ip),
                        host: String::from_str(host),
                        mac: String::from_str(mac),
                        months: n,
                    },
                ),
            )
        } else {
            Ok(None)
        },
    }
}

/// The MAC key of an inventory MAC address.
pub open spec fn key_of(raw: Seq<char>) -> Seq<char> {
    upper_of(strip_separators(raw))
}

/// What an inventory line `l` comes to: nothing for a skipped line or a
/// host that is not stale, a report for a stale one, or an error.
pub open spec fn line_verdict(
    l: Seq<char>,
    ex: Seq<Seq<char>>,
    index: Map<Seq<char>, MacView>,
    now: YearMonth,
    threshold: int,
) -> Result<Option<StaleView>, ScanError> {
    if is_skipped(l, ex) {
        Ok(None)
    } else if field_count(l) < 9 {
        Err(ScanError::Malformed)
    } else {
        let key = key_of(field(l, 8));
        match stale_months(index, key, now, threshold) {
            Err(e) => Err(ScanError::BadDate(e)),
            Ok(None) => Ok(None),
            Ok(Some(n)) => Ok(Some((field(l, 0), field(l, 1), key, n))),
        }
    }
}

/// Checks one inventory line against the index.
pub fn check_line(line: &str, config: &Config, index: &SightingIndex, now: YearMonth) -> (r: Result<
    Option<StaleHost>,
    ScanError,
>)
    requires
        index.wf(),
    ensures
        match (r, line_verdict(line@, views(config.exclusions@), index@, now, config.threshold as int)) {
            (Ok(None), Ok(None)) => true,
            (Ok(Some(s)), Ok(Some(v))) => s@ == v,
            (Err(a), Err(b)) => a == b,
            _ => false,
        },
{
    match read_inventory_line(line, &config.exclusions) {
        InventoryLine::Skipped => Ok(None),
        InventoryLine::Malformed => Err(ScanError::Malformed),
        InventoryLine::Host(e) => {
            let key = normalize_mac(e.mac.as_str());
            match assess(index, e.ip.as_str(), e.host.as_str(), key.as_str(), now, config.threshold) {
                Err(d) => Err(ScanError::BadDate(d)),
                Ok(s) => Ok(s),
            }
        },
    }
}

/// An inventory line that could not be checked, by its number (from 1).
#[derive(Clone, Copy, Debug, PartialEq, Eq, Structural)]
pub struct LineError {
    pub line_number: usize,
    pub error: ScanError,
}

/// The outcome of a scan: the stale hosts and the lines in error, each in
/// inventory order.
pub struct ScanReport {
    pub stale: Vec<StaleHost>,
    pub errors: Vec<LineError>,
}

/// The reports that the lines `ls` give, in order.
pub open spec fn stale_of(
    ls: Seq<Seq<char>>,
    ex: Seq<Seq<char>>,
    index: Map<Seq<char>, MacView>,
    now: YearMonth,
    threshold: int,
) -> Seq<StaleView>
    decreases ls.len(),
{
    if ls.len() == 0 {
        Seq::empty()
    } else {
        let prev = stale_of(ls.drop_last(), ex, index, now, threshold);
        match line_verdict(ls.last(), ex, index, now, threshold) {
            Ok(Some(v)) => prev.push(v),
            _ => prev,
        }
    }
}

/// The errors that the lines `ls` give, in order, with line numbers from 1.
pub open spec fn errors_of(
    ls: Seq<Seq<char>>,
    ex: Seq<Seq<char>>,
    index: Map<Seq<char>, MacView>,
    now: YearMonth,
    threshold: int,
) -> Seq<(int, ScanError)>
    decreases ls.len(),
{
    if ls.len() == 0 {
        Seq::empty()
    } else {
        let prev = errors_of(ls.drop_last(), ex, index, now, threshold);
        match line_verdict(ls.last(), ex, index, now, threshold) {
            Err(e) => prev.push((ls.len() as int, e)),
            _ => prev,
        }
    }
}

pub open spec fn error_views(v: Seq<LineError>) -> Seq<(int, ScanError)> {
    v.map_values(|e: LineError| (e.line_number as int, e.error))
}

/// Checks every inventory line against the index.
pub fn scan_inventory(
    lines: &Vec<String>,
    config: &Config,
    index: &SightingIndex,
    now: YearMonth,
) -> (r: ScanReport)
    requires
        index.wf(),
    ensures
        r.stale@.map_values(|s: StaleHost| s@) == stale_of(
            views(lines@),
            views(config.exclusions@),
            index@,
            now,
            config.threshold as int,
        ),
        error_views(r.errors@) == errors_of(
            views(lines@),
            views(config.exclusions@),
            index@,
            now,
            config.threshold as int,
        ),
{
    let ghost ls = views(lines@);
    let ghost ex = views(config.exclusions@);
    let ghost thr = config.threshold as int;
    let mut stale: Vec<StaleHost> = Vec::new();
    let mut errors: Vec<LineError> = Vec::new();
    let mut k: usize = 0;
    while k < lines.len()
        invariant
            k <= lines.len(),
            ls == views(lines@),
            ex == views(config.exclusions@),
            thr == config.threshold as int,
            index.wf(),
            stale@.map_values(|s: StaleHost| s@) == stale_of(ls.subrange(0, k as int), ex, index@, now, thr),
            error_views(errors@) == errors_of(ls.subrange(0, k as int), ex, index@, now, thr),
        decreases lines.len() - k,
    {
        let ghost sub = ls.subrange(0, k + 1);
        assert(sub.drop_last() =~= ls.subrange(0, k as int));
        assert(sub.last() == lines@[k as int]@);
        let ghost s0 = stale@.map_values(|s: StaleHost| s@);
        let ghost e0 = error_views(errors@);
        match check_line(lines[k].as_str(), config, index, now) {
            Ok(None) => {},
            Ok(Some(s)) => {
                stale.push(s);
                assert(stale@.map_values(|s: StaleHost| s@) =~= s0.push(stale@[s0.len() as int]@));
            },
            Err(e) => {
                errors.push(LineError { line_number: k + 1, error: e });
                assert(error_views(errors@) =~= e0.push((k + 1, e)));
            },
        }
        k += 1;
    }
    assert(ls.subrange(0, lines.len() as int) =~= ls);
    ScanReport { stale, errors }
}

/// Builds the index from the sighting log `history`, then checks every line
/// of `inventory` against it.
pub fn find_stale(
    history: &Vec<String>,
    inventory: &Vec<String>,
    config: &Config,
    now: YearMonth,
) -> (r: ScanReport)
    ensures
        r.stale@.map_values(|s: StaleHost| s@) == stale_of(
            views(inventory@),
            views(config.exclusions@),
            index_of(views(history@)),
            now,
            config.threshold as int,
        ),
        error_views(r.errors@) == errors_of(
            views(inventory@),
            views(config.exclusions@),
            index_of(views(history@)),
            now,
            config.threshold as int,
        ),
{
    let index = load_history(history);
    assert(views(history@) == history@.map_values(|s: String| s@));
    scan_inventory(inventory, config, &index, now)
}

} // verus!
