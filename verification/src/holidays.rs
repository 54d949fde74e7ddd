//! Holiday data: the entries of a holiday file and the index of them by day.
use vstd::prelude::*;
use vstd::string::*;

use std::collections::HashMap;

use crate::calendar::{parsed_ymd, Date, DateView};

verus! {

broadcast use vstd::std_specs::hash::group_hash_axioms;

/// One day listed in a holiday file.
#[derive(Debug, Clone, PartialEq, Eq)]
pub struct HolidayDate {
    /// The day, written `YYYY-MM-DD`.
    pub date: String,
    pub name: String,
    pub name_cn: Option<String>,
    pub name_en: Option<String>,
    /// `"public_holiday"`, `"transfer_workday"`, or another kind.
    pub kind: String,
}

/// A holiday file: the days of one year for one region.
#[derive(Debug, Clone)]
pub struct HolidayFile {
    pub year: i32,
    pub region: String,
    pub dates: Vec<HolidayDate>,
}

/// Why a holiday file could not be indexed.
#[derive(Debug, Clone)]
pub enum IndexError {
    /// The file belongs to another region than the files indexed before it.
    MixedRegions { loaded: String, got: String },
    /// A listed day is not written `YYYY-MM-DD`.
    BadDateFormat { date: String },
}

pub enum IndexErrorView {
    MixedRegions { loaded: Seq<char>, got: Seq<char> },
    BadDateFormat { date: Seq<char> },
}

impl View for IndexError {
    type V = IndexErrorView;

    open spec fn view(&self) -> IndexErrorView {
        match self {
            IndexError::MixedRegions { loaded, got } => IndexErrorView::MixedRegions {
                loaded: loaded@,
                got: got@,
            },
            IndexError::BadDateFormat { date } => IndexErrorView::BadDateFormat { date: date@ },
        }
    }
}

/// The text by which an indexing error is reported.
pub open spec fn index_error_message(e: IndexErrorView) -> Seq<char> {
    match e {
        IndexErrorView::MixedRegions { loaded, got } => "mixed regions in holiday json files: already loaded "@
            + loaded + ", but got "@ + got,
        IndexErrorView::BadDateFormat { date } => "Bad date format in json: "@ + date,
    }
}

impl IndexError {
    /// The text by which this error is reported.
    pub fn message(&self) -> (r: String)
        ensures
            r@ == index_error_message(self@),
    {
        match self {
            IndexError::MixedRegions { loaded, got } => {
                let mut s = String::from_str("mixed regions in holiday json files: already loaded ");
                s.append(loaded.as_str());
                s.append(", but got ");
                s.append(got.as_str());
                s
            },
            IndexError::BadDateFormat { date } => {
                let mut s = String::from_str("Bad date format in json: ");
                s.append(date.as_str());
                s
            },
        }
    }
}

/// The mathematical content of a `HolidayIndex`: the entry of each day, and the region
/// of the files indexed so far.
pub struct IndexView {
    pub entries: Map<DateView, HolidayDate>,
    pub region: Option<Seq<char>>,
}

/// The days listed in a holiday file, indexed by day; later entries replace earlier ones.
#[derive(Debug)]
pub struct HolidayIndex {
    map: HashMap<u64, HolidayDate>,
    region: Option<String>,
}

pub open spec fn opt_text(s: Option<String>) -> Option<Seq<char>> {
    match s {
        Some(t) => Some(t@),
        None => None,
    }
}

impl View for HolidayIndex {
    type V = IndexView;

    closed spec fn view(&self) -> IndexView {
        IndexView {
            entries: Map::new(
                |d: DateView| d.valid() && self.map@.contains_key(d.key() as u64),
                |d: DateView| self.map@[d.key() as u64],
            ),
            region: opt_text(self.region),
        }
    }
}

/// The region an index has after a file of `file_region` is added to one of `current`,
/// or the error that refuses the file.
pub open spec fn region_after_file(current: Option<Seq<char>>, file_region: Seq<char>) -> Result<
    Option<Seq<char>>,
    IndexErrorView,
> {
    match current {
        None => Ok(Some(file_region)),
        Some(r) => if r == file_region {
            Ok(Some(r))
        } else {
            Err(IndexErrorView::MixedRegions { loaded: r, got: file_region })
        },
    }
}

/// The position of the first day that could not be read, or the length where all could.
pub open spec fn first_unparsed(parsed: Seq<Option<DateView>>) -> nat
    decreases parsed.len(),
{
    if parsed.len() == 0 {
        0
    } else if parsed[0] is None {
        0
    } else {
        1 + first_unparsed(parsed.drop_first())
    }
}

/// `entries` with the first `n` listed days added, in order.
pub open spec fn with_listed(
    entries: Map<DateView, HolidayDate>,
    dates: Seq<HolidayDate>,
    parsed: Seq<Option<DateView>>,
    n: nat,
) -> Map<DateView, HolidayDate>
    decreases n,
{
    if n == 0 {
        entries
    } else {
        with_listed(entries, dates, parsed, (n - 1) as nat).insert(
            parsed[n - 1]->Some_0,
            dates[n - 1],
        )
    }
}

/// The index after a file is added, and the outcome, given the day each listed entry
/// names (`None` where its text is not a day).
///
/// A file of another region is refused and changes nothing. Otherwise the region is
/// recorded, and the entries are added in order up to the first one whose day cannot be
/// read, which is then reported: the entries before it stay added.
pub open spec fn index_after_file(
    idx: IndexView,
    file_region: Seq<char>,
    dates: Seq<HolidayDate>,
    parsed: Seq<Option<DateView>>,
) -> (IndexView, Result<(), IndexErrorView>) {
    match region_after_file(idx.region, file_region) {
        Err(e) => (idx, Err(e)),
        Ok(region) => {
            let k = first_unparsed(parsed);
            let after = IndexView { entries: with_listed(idx.entries, dates, parsed, k), region };
            if k < dates.len() {
                (after, Err(IndexErrorView::BadDateFormat { date: dates[k as int].date@ }))
            } else {
                (after, Ok(()))
            }
        },
    }
}

/// The day each entry of `dates` names, as `chrono` reads its `date` text.
pub open spec fn parsed_days(dates: Seq<HolidayDate>) -> Seq<Option<DateView>> {
    dates.map_values(|h: HolidayDate| parsed_ymd(h.date@))
}

pub open spec fn opt_date_view(d: Option<Date>) -> Option<DateView> {
    match d {
        Some(x) => Some(x@),
        None => None,
    }
}

pub open spec fn unit_result_view(r: Result<(), IndexError>) -> Result<(), IndexErrorView> {
    match r {
        Ok(()) => Ok(()),
        Err(e) => Err(e@),
    }
}

/// `first_unparsed` is the first position that holds no day.
pub proof fn lemma_first_unparsed(parsed: Seq<Option<DateView>>, i: int)
    requires
        0 <= i <= parsed.len(),
        forall|j: int| 0 <= j < i ==> parsed[j] is Some,
        i == parsed.len() || parsed[i] is None,
    ensures
        first_unparsed(parsed) == i,
    decreases i,
{
    if i > 0 {
        let rest = parsed.drop_first();
        assert forall|j: int| 0 <= j < i - 1 implies rest[j] is Some by {
            assert(rest[j] == parsed[j + 1]);
        }
        if i - 1 < rest.len() {
            assert(rest[i - 1] == parsed[i]);
        }
        lemma_first_unparsed(rest, i - 1);
    }
}

impl Default for HolidayIndex {
    fn default() -> (r: HolidayIndex)
        ensures
            r@.entries == Map::<DateView, HolidayDate>::empty(),
            r@.region is None,
    {
        HolidayIndex::new()
    }
}

impl HolidayIndex {
    /// An index with no entries and no region.
    pub fn new() -> (r: HolidayIndex)
        ensures
            r@.entries == Map::<DateView, HolidayDate>::empty(),
            r@.region is None,
    {
        let r = HolidayIndex { map: HashMap::new(), region: None };
        assert(r@.entries =~= Map::<DateView, HolidayDate>::empty());
        r
    }

    /// Files `entry` under `date`, replacing what was filed there.
    pub fn insert_entry(&mut self, date: Date, entry: HolidayDate)
        ensures
            final(self)@.entries == old(self)@.entries.insert(date@, entry),
            final(self)@.region == old(self)@.region,
    {
        let key = date.key();
        proof {
            use_type_invariant(&date);
            date.lemma_inv_valid();
        }
        self.map.insert(key, entry);
        proof {
            assert forall|d: DateView| d.valid() && d.key() as u64 == key implies d == date@ by {
                crate::calendar::lemma_date_key_injective(d, date@);
            }
        }
        assert(self@.entries =~= old(self)@.entries.insert(date@, entry));
    }

    /// The entry filed under `date`, if any.
    pub fn get(&self, date: Date) -> (r: Option<&HolidayDate>)
        ensures
            r == (if self@.entries.contains_key(date@) {
                Some(&self@.entries[date@])
            } else {
                None
            }),
    {
        proof {
            use_type_invariant(&date);
            date.lemma_inv_valid();
        }
        let key = date.key();
        self.map.get(&key)
    }

    /// The region of the files indexed so far.
    pub fn region(&self) -> (r: Option<&str>)
        ensures
            r is Some <==> self@.region is Some,
            r matches Some(s) ==> Some(s@) == self@.region,
    {
        match &self.region {
            Some(s) => Some(s.as_str()),
            None => None,
        }
    }

    /// Adds the entries of a file whose listed days are already read: `parsed[i]` is the
    /// day of `file.dates[i]`, or `None` where its text names no day.
    pub fn insert_parsed(&mut self, file: HolidayFile, parsed: Vec<Option<Date>>) -> (r: Result<
        (),
        IndexError,
    >)
        requires
            parsed@.len() == file.dates@.len(),
        ensures
            (final(self)@, unit_result_view(r)) == index_after_file(
                old(self)@,
                file.region@,
                file.dates@,
                parsed@.map_values(|d: Option<Date>| opt_date_view(d)),
            ),
    {
        let ghost views = parsed@.map_values(|d: Option<Date>| opt_date_view(d));
        let ghost orig_dates = file.dates@;
        let HolidayFile { year: _, region, dates } = file;
        match &self.region {
            None => {
                self.region = Some(region);
            },
            Some(r) => {
                if *r != region {
                    let loaded = r.clone();
                    return Err(IndexError::MixedRegions { loaded, got: region });
                }
            },
        }
        let ghost start = self@;
        let ghost old_index = old(self)@;
        let mut dates = dates;
        let n = parsed.len();
        let mut i: usize = 0;
        while i < n
            invariant
                n == parsed@.len(),
                n == orig_dates.len(),
                views == parsed@.map_values(|d: Option<Date>| opt_date_view(d)),
                0 <= i <= n,
                dates@ == orig_dates.subrange(i as int, n as int),
                forall|j: int| 0 <= j < i ==> views[j] is Some,
                self@.region == start.region,
                start.entries == old_index.entries,
                old_index == old(self)@,
                orig_dates == file.dates@,
                region_after_file(old_index.region, file.region@) == Ok::<Option<Seq<char>>, IndexErrorView>(start.region),
                self@.entries == with_listed(start.entries, orig_dates, views, i as nat),
            decreases n - i,
        {
            let h = dates.remove(0);
            assert(h == orig_dates[i as int]);
            let p = parsed[i];
            assert(views[i as int] == opt_date_view(p));
            match p {
                None => {
                    proof {
                        lemma_first_unparsed(views, i as int);
                    }
                    return Err(IndexError::BadDateFormat { date: h.date });
                },
                Some(day) => {
                    self.insert_entry(day, h);
                    assert(dates@ =~= orig_dates.subrange(i + 1, n as int));
                    i = i + 1;
                },
            }
        }
        proof {
            lemma_first_unparsed(views, n as int);
        }
        Ok(())
    }

    /// Adds the entries of a holiday file, as `insert_parsed` does with the day that
    /// `chrono` reads from each entry's `date` text in the `YYYY-MM-DD` format.
    pub fn insert_file(&mut self, file: HolidayFile) -> (r: Result<(), IndexError>)
        ensures
            (final(self)@, unit_result_view(r)) == index_after_file(
                old(self)@,
                file.region@,
                file.dates@,
                parsed_days(file.dates@),
            ),
    {
        let mut parsed: Vec<Option<Date>> = Vec::new();
        let n = file.dates.len();
        let mut i: usize = 0;
        while i < n
            invariant
                n == file.dates@.len(),
                0 <= i <= n,
                parsed@.len() == i,
                forall|j: int|
                    0 <= j < i ==> opt_date_view(#[trigger] parsed@[j]) == parsed_ymd(
                        file.dates@[j].date@,
                    ),
            decreases n - i,
        {
            let d = Date::parse_ymd(file.dates[i].date.as_str());
            parsed.push(d);
            i = i + 1;
        }
        assert(parsed@.map_values(|d: Option<Date>| opt_date_view(d)) =~= parsed_days(file.dates@));
        self.insert_parsed(file, parsed)
    }
}

} // verus!
