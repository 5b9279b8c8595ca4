use vstd::hash_map::StringHashMap;
use vstd::prelude::*;

verus! {

/// The abstract state of one MAC address: the window of recorded dates,
/// oldest first, and how many sightings were counted.
pub struct MacView {
    pub dates: Seq<Seq<char>>,
    pub count: nat,
}

/// The state after one more sighting on `date`: a full window drops its
/// first entry before the new date is appended; the count saturates at
/// `u64::MAX`.
pub open spec fn record_spec(m: MacView, date: Seq<char>) -> MacView {
    MacView {
        dates: if m.dates.len() >= 2 {
            m.dates.drop_first().push(date)
        } else {
            m.dates.push(date)
        },
        count: if m.count < u64::MAX { m.count + 1 } else { m.count },
    }
}

/// The state of a MAC address that was sighted on `ds`, in that order.
pub open spec fn after_records(ds: Seq<Seq<char>>) -> MacView
    decreases ds.len(),
{
    if ds.len() == 0 {
        MacView { dates: Seq::empty(), count: 0 }
    } else {
        record_spec(after_records(ds.drop_last()), ds.last())
    }
}

/// The last two entries of `ds` (all of them when there are fewer).
pub open spec fn last_two(ds: Seq<Seq<char>>) -> Seq<Seq<char>> {
    if ds.len() <= 2 {
        ds
    } else {
        ds.subrange(ds.len() - 2, ds.len() as int)
    }
}

/// The sighting record of one MAC address: a window of at most two dates in
/// the order they were recorded, and a count of sightings.
pub struct Mac {
    dates: Vec<String>,
    count: u64,
}

impl View for Mac {
    type V = MacView;

    closed spec fn view(&self) -> MacView {
        MacView { dates: self.dates@.map_values(|s: String| s@), count: self.count as nat }
    }
}

impl Mac {
    pub open spec fn wf(&self) -> bool {
        self@.dates.len() <= 2
    }

    /// A record with no dates and a count of zero.
    pub fn new() -> (r: Mac)
        ensures
            r.wf(),
            r@ == after_records(Seq::empty()),
    {
        let r = Mac { dates: Vec::with_capacity(2), count: 0 };
        assert(r@.dates =~= Seq::<Seq<char>>::empty());
        r
    }

    /// Records a sighting on `date`.
    pub fn record(&mut self, date: String)
        requires
            old(self).wf(),
        ensures
            final(self).wf(),
            final(self)@ == record_spec(old(self)@, date@),
    {
        let ghost d0 = self@.dates;
        if self.dates.len() >= 2 {
            self.dates.remove(0);
        }
        self.dates.push(date);
        self.count = self.count.saturating_add(1);
        assert(self@.dates =~= record_spec(MacView { dates: d0, count: 0 }, date@).dates);
    }

    /// The recorded dates, oldest first.
    pub fn dates(&self) -> (r: &Vec<String>)
        ensures
            r@.map_values(|s: String| s@) == self@.dates,
    {
        &self.dates
    }

    /// The number of sightings counted.
    pub fn count(&self) -> (r: u64)
        ensures
            r as nat == self@.count,
    {
        self.count
    }

    /// A copy with the same dates and count.
    pub fn duplicate(&self) -> (r: Mac)
        requires
            self.wf(),
        ensures
            r.wf(),
            r@ == self@,
    {
        let mut dates: Vec<String> = Vec::with_capacity(2);
        let mut i: usize = 0;
        while i < self.dates.len()
            invariant
                i <= self.dates.len(),
                dates@ == self.dates@.subrange(0, i as int),
            decreases self.dates.len() - i,
        {
            dates.push(self.dates[i].clone());
            i += 1;
            assert(dates@ =~= self.dates@.subrange(0, i as int));
        }
        assert(self.dates@.subrange(0, self.dates.len() as int) =~= self.dates@);
        Mac { dates, count: self.count }
    }
}

/// Recording dates one after another from a fresh record keeps exactly the
/// last two of them, in the order they were recorded, and counts them all.
pub proof fn lemma_window_keeps_last_two(ds: Seq<Seq<char>>)
    requires
        ds.len() <= u64::MAX,
    ensures
        after_records(ds).dates == last_two(ds),
        after_records(ds).count == ds.len(),
    decreases ds.len(),
{
    if ds.len() > 0 {
        lemma_window_keeps_last_two(ds.drop_last());
        let prev = ds.drop_last();
        if prev.len() >= 2 {
            assert(last_two(prev).drop_first().push(ds.last()) =~= last_two(ds));
        } else {
            assert(last_two(prev).push(ds.last()) =~= last_two(ds));
        }
    }
}

/// The window of `m`, or an empty record where there is none.
pub open spec fn or_fresh(m: Option<MacView>) -> MacView {
    match m {
        Some(v) => v,
        None => after_records(Seq::empty()),
    }
}

/// For each MAC address, the record of its sightings.
pub struct SightingIndex {
    map: StringHashMap<Mac>,
}

impl View for SightingIndex {
    type V = Map<Seq<char>, MacView>;

    closed spec fn view(&self) -> Map<Seq<char>, MacView> {
        self.map@.map_values(|m: Mac| m@)
    }
}

impl SightingIndex {
    /// Every record holds one or two dates.
    pub open spec fn wf(&self) -> bool {
        forall|k: Seq<char>| #[trigger] self@.contains_key(k) ==> 1 <= self@[k].dates.len() <= 2
    }

    /// An index with no MAC address in it.
    pub fn new() -> (r: SightingIndex)
        ensures
            r.wf(),
            r@ == Map::<Seq<char>, MacView>::empty(),
    {
        let r = SightingIndex { map: StringHashMap::new() };
        assert(r@ =~= Map::<Seq<char>, MacView>::empty());
        r
    }

    /// Records a sighting of `mac` on `date`, creating its record on its first
    /// sighting.
    pub fn record(&mut self, mac: String, date: String)
        requires
            old(self).wf(),
        ensures
            final(self).wf(),
            final(self)@ == old(self)@.insert(mac@, record_spec(or_fresh(old(self)@.get(mac@)), date@)),
    {
        let mut m = match self.map.get(mac.as_str()) {
            Some(m) => m.duplicate(),
            None => Mac::new(),
        };
        m.record(date);
        self.map.insert(mac, m);
        assert(self@ =~= old(self)@.insert(mac@, record_spec(or_fresh(old(self)@.get(mac@)), date@)));
    }

    /// The record of `mac`, if it was ever sighted.
    pub fn lookup(&self, mac: &str) -> (r: Option<&Mac>)
        ensures
            match r {
                Some(m) => self@.contains_key(mac@) && m@ == self@[mac@],
                None => !self@.contains_key(mac@),
            },
    {
        self.map.get(mac)
    }
}

} // verus!
