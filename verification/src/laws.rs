//! What holds of the index and of the decisions over all inputs.
use vstd::prelude::*;

use crate::calendar::{is_weekend_day, lemma_ymd_text_reads_back, parsed_ymd, valid_ymd, ymd_text, DateView};
use crate::config::{
    config_search_after, is_path_like, is_separator, joined_to, may_be_absolute, may_have_prefix,
    needs_separator, resolution_of, resolved_as, ConfigSearch,
};
use crate::decision::{decision_for, deny_reason, entry_for, weekday_verdict, Verdict};
use crate::holidays::{
    first_unparsed, index_after_file, parsed_days, region_after_file, with_listed, HolidayDate,
    IndexErrorView, IndexView,
};

verus! {

/// A day that a file lists last among its entries (up to position `n`) carries that entry.
pub proof fn lemma_with_listed_last(
    entries: Map<DateView, HolidayDate>,
    dates: Seq<HolidayDate>,
    parsed: Seq<Option<DateView>>,
    n: nat,
    j: int,
    day: DateView,
)
    requires
        n <= parsed.len(),
        n <= dates.len(),
        0 <= j < n,
        parsed[j] == Some(day),
        forall|k: int| j < k < n ==> parsed[k] != Some(day),
        forall|k: int| 0 <= k < n ==> parsed[k] is Some,
    ensures
        with_listed(entries, dates, parsed, n).contains_key(day),
        with_listed(entries, dates, parsed, n)[day] == dates[j],
    decreases n,
{
    if j < n - 1 {
        lemma_with_listed_last(entries, dates, parsed, (n - 1) as nat, j, day);
        assert(parsed[n - 1] != Some(day));
        assert(parsed[n - 1]->Some_0 != day);
    }
}

/// A day that a file does not list (up to position `n`) keeps what the index held.
pub proof fn lemma_with_listed_unlisted(
    entries: Map<DateView, HolidayDate>,
    dates: Seq<HolidayDate>,
    parsed: Seq<Option<DateView>>,
    n: nat,
    day: DateView,
)
    requires
        n <= parsed.len(),
        n <= dates.len(),
        forall|k: int| 0 <= k < n ==> parsed[k] is Some,
        forall|k: int| 0 <= k < n ==> parsed[k] != Some(day),
    ensures
        with_listed(entries, dates, parsed, n).contains_key(day) == entries.contains_key(day),
        entries.contains_key(day) ==> with_listed(entries, dates, parsed, n)[day] == entries[day],
    decreases n,
{
    if n > 0 {
        lemma_with_listed_unlisted(entries, dates, parsed, (n - 1) as nat, day);
        assert(parsed[n - 1]->Some_0 != day);
    }
}

/// Read after write: the entry filed for a day is the one read back for it, and filing
/// an entry for one day leaves every other day as it was.
pub proof fn law_read_after_write(idx: IndexView, day: DateView, entry: HolidayDate, other: DateView)
    ensures
        entry_for(IndexView { entries: idx.entries.insert(day, entry), region: idx.region }, day)
            == Some(entry),
        other != day ==> entry_for(
            IndexView { entries: idx.entries.insert(day, entry), region: idx.region },
            other,
        ) == entry_for(idx, other),
{
}

/// A file of another region than the files indexed before is refused, and the index
/// stays as it was.
pub proof fn law_mixed_regions_refused(
    idx: IndexView,
    loaded: Seq<char>,
    file_region: Seq<char>,
    dates: Seq<HolidayDate>,
    parsed: Seq<Option<DateView>>,
)
    requires
        idx.region == Some(loaded),
        loaded != file_region,
    ensures
        index_after_file(idx, file_region, dates, parsed) == (
            idx,
            Err::<(), IndexErrorView>(IndexErrorView::MixedRegions { loaded, got: file_region }),
        ),
{
}

/// The first file fixes the region, and it never changes afterwards.
pub proof fn law_region_is_fixed(
    idx: IndexView,
    file_region: Seq<char>,
    dates: Seq<HolidayDate>,
    parsed: Seq<Option<DateView>>,
)
    ensures
        idx.region is None ==> index_after_file(idx, file_region, dates, parsed).0.region == Some(
            file_region,
        ),
        idx.region is Some ==> index_after_file(idx, file_region, dates, parsed).0.region
            == idx.region,
{
}

/// A file of the index's region is accepted exactly when every listed day can be read.
pub proof fn law_file_accepted_iff_all_days_read(
    idx: IndexView,
    file_region: Seq<char>,
    dates: Seq<HolidayDate>,
    parsed: Seq<Option<DateView>>,
)
    requires
        parsed.len() == dates.len(),
        region_after_file(idx.region, file_region) is Ok,
    ensures
        index_after_file(idx, file_region, dates, parsed).1 is Ok <==> (forall|k: int|
            0 <= k < parsed.len() ==> parsed[k] is Some),
{
    let n = first_unparsed(parsed);
    lemma_first_unparsed_bounds(parsed);
    if forall|k: int| 0 <= k < parsed.len() ==> parsed[k] is Some {
        if n < parsed.len() {
            assert(parsed[n as int] is Some);
        }
    }
}

/// `first_unparsed` is at most the length, every position before it holds a day, and the
/// position itself (where it is within the sequence) holds none.
pub proof fn lemma_first_unparsed_bounds(parsed: Seq<Option<DateView>>)
    ensures
        first_unparsed(parsed) <= parsed.len(),
        forall|k: int| 0 <= k < first_unparsed(parsed) ==> parsed[k] is Some,
        first_unparsed(parsed) < parsed.len() ==> parsed[first_unparsed(parsed) as int] is None,
    decreases parsed.len(),
{
    if parsed.len() > 0 && parsed[0] is Some {
        let rest = parsed.drop_first();
        lemma_first_unparsed_bounds(rest);
        assert forall|k: int| 0 <= k < first_unparsed(parsed) implies parsed[k] is Some by {
            if k > 0 {
                assert(parsed[k] == rest[k - 1]);
            }
        }
        if first_unparsed(parsed) < parsed.len() {
            assert(parsed[first_unparsed(parsed) as int] == rest[first_unparsed(rest) as int]);
        }
    }
}

/// Later entries override earlier ones: after a file is accepted, a day it lists carries
/// the file's last entry for that day, and a day it does not list keeps what the index
/// held before.
pub proof fn law_later_entries_override(
    idx: IndexView,
    file_region: Seq<char>,
    dates: Seq<HolidayDate>,
    parsed: Seq<Option<DateView>>,
    j: int,
    day: DateView,
)
    requires
        parsed.len() == dates.len(),
        index_after_file(idx, file_region, dates, parsed).1 is Ok,
    ensures
        0 <= j < dates.len() && parsed[j] == Some(day) && (forall|k: int|
            j < k < dates.len() ==> parsed[k] != Some(day)) ==> entry_for(
            index_after_file(idx, file_region, dates, parsed).0,
            day,
        ) == Some(dates[j]),
        (forall|k: int| 0 <= k < dates.len() ==> parsed[k] != Some(day)) ==> entry_for(
            index_after_file(idx, file_region, dates, parsed).0,
            day,
        ) == entry_for(idx, day),
{
    lemma_first_unparsed_bounds(parsed);
    let n = first_unparsed(parsed);
    assert(n == parsed.len());
    if 0 <= j < dates.len() && parsed[j] == Some(day) && (forall|k: int|
        j < k < dates.len() ==> parsed[k] != Some(day)) {
        lemma_with_listed_last(idx.entries, dates, parsed, n, j, day);
    }
    if forall|k: int| 0 <= k < dates.len() ==> parsed[k] != Some(day) {
        lemma_with_listed_unlisted(idx.entries, dates, parsed, n, day);
    }
}

/// A public holiday is skipped and a transferred working day runs, whatever the day of
/// the week and the policy for unlisted days.
pub proof fn law_holiday_kinds_override_weekday(
    h: HolidayDate,
    missing_policy: Seq<char>,
    weekday: int,
)
    ensures
        h.kind@ == "public_holiday"@ ==> !decision_for(Some(h), missing_policy, weekday).runs(),
        h.kind@ == "transfer_workday"@ ==> decision_for(Some(h), missing_policy, weekday).runs(),
{
    reveal_strlit("public_holiday");
    reveal_strlit("transfer_workday");
    assert("public_holiday"@ != "transfer_workday"@) by {
        assert("public_holiday"@[0] != "transfer_workday"@[0]);
    }
}

/// A listed day of an unknown kind runs exactly when the weekday rule runs, and its reason
/// names the kind before the weekday rule's reason.
pub proof fn law_unknown_kind_follows_weekday(
    h: HolidayDate,
    missing_policy: Seq<char>,
    weekday: int,
)
    requires
        h.kind@ != "public_holiday"@,
        h.kind@ != "transfer_workday"@,
    ensures
        decision_for(Some(h), missing_policy, weekday).runs() == weekday_verdict(weekday).runs(),
        decision_for(Some(h), missing_policy, weekday).reason() == "unknown holiday type ("@
            + h.kind@ + ") + "@ + weekday_verdict(weekday).reason(),
{
}

/// With `missing_policy = "deny"` an unlisted day is always skipped; with any other policy
/// it runs on Monday to Friday and is skipped on Saturday and Sunday.
pub proof fn law_unlisted_days(missing_policy: Seq<char>, weekday: int)
    ensures
        missing_policy == "deny"@ ==> decision_for(None, missing_policy, weekday) == (Verdict::Skip {
            reason: deny_reason(),
        }),
        missing_policy != "deny"@ ==> decision_for(None, missing_policy, weekday).runs()
            == !is_weekend_day(weekday),
{
}

/// Inverting swaps run and skip and keeps the reason; inverting twice changes nothing.
pub proof fn law_invert_swaps(v: Verdict)
    ensures
        v.flipped().runs() == !v.runs(),
        v.flipped().reason() == v.reason(),
        v.flipped().flipped() == v,
{
}

/// The decision for a day depends only on the index's entry for that day: filing an entry
/// for another day does not change it.
pub proof fn law_decision_is_local(
    idx: IndexView,
    day: DateView,
    other: DateView,
    entry: HolidayDate,
    missing_policy: Seq<char>,
)
    requires
        other != day,
    ensures
        decision_for(
            entry_for(IndexView { entries: idx.entries.insert(other, entry), region: idx.region }, day),
            missing_policy,
            day.weekday(),
        ) == decision_for(entry_for(idx, day), missing_policy, day.weekday()),
{
}

/// The search for the configuration file ends after at most three answers; a path given
/// on the command line is used without looking further, and a finished search stays
/// finished.
pub proof fn law_config_search_ends(given: bool, in_working_dir: bool, next_to_exe: bool, done: ConfigSearch)
    requires
        done.is_done(),
    ensures
        config_search_after(
            config_search_after(config_search_after(ConfigSearch::Start, given), in_working_dir),
            next_to_exe,
        ).is_done(),
        given ==> config_search_after(ConfigSearch::Start, given) == ConfigSearch::UseGiven,
        !given && in_working_dir ==> config_search_after(
            config_search_after(ConfigSearch::Start, given),
            in_working_dir,
        ) == ConfigSearch::UseCandidate,
        config_search_after(done, given) == done,
{
}

/// Two maps with the first `n` listed days added agree on every day listed among them,
/// whatever they held before.
pub proof fn lemma_with_listed_agree(
    x: Map<DateView, HolidayDate>,
    y: Map<DateView, HolidayDate>,
    dates: Seq<HolidayDate>,
    parsed: Seq<Option<DateView>>,
    n: nat,
    j: int,
    day: DateView,
)
    requires
        n <= parsed.len(),
        n <= dates.len(),
        0 <= j < n,
        parsed[j] == Some(day),
        forall|k: int| 0 <= k < n ==> parsed[k] is Some,
    ensures
        with_listed(x, dates, parsed, n).contains_key(day),
        with_listed(y, dates, parsed, n).contains_key(day),
        with_listed(x, dates, parsed, n)[day] == with_listed(y, dates, parsed, n)[day],
    decreases n,
{
    if parsed[n - 1] != Some(day) {
        lemma_with_listed_agree(x, y, dates, parsed, (n - 1) as nat, j, day);
        assert(parsed[n - 1]->Some_0 != day);
    }
}

/// Adding a file that was just accepted a second time is accepted again and changes
/// nothing.
pub proof fn law_readding_accepted_file_changes_nothing(
    idx: IndexView,
    file_region: Seq<char>,
    dates: Seq<HolidayDate>,
    parsed: Seq<Option<DateView>>,
)
    requires
        parsed.len() == dates.len(),
        index_after_file(idx, file_region, dates, parsed).1 is Ok,
    ensures
        index_after_file(index_after_file(idx, file_region, dates, parsed).0, file_region, dates, parsed)
            == index_after_file(idx, file_region, dates, parsed),
{
    lemma_first_unparsed_bounds(parsed);
    let n = first_unparsed(parsed);
    assert(n == parsed.len());
    let once = index_after_file(idx, file_region, dates, parsed).0;
    let twice = with_listed(once.entries, dates, parsed, n);
    assert forall|day: DateView|
        #![trigger twice.contains_key(day)]
        #![trigger once.entries.contains_key(day)]
        twice.contains_key(day) == once.entries.contains_key(day) && (twice.contains_key(day)
            ==> twice[day] == once.entries[day]) by {
        if exists|j: int| 0 <= j < n && parsed[j] == Some(day) {
            let j = choose|j: int| 0 <= j < n && parsed[j] == Some(day);
            lemma_with_listed_agree(once.entries, idx.entries, dates, parsed, n, j, day);
        } else {
            lemma_with_listed_unlisted(once.entries, dates, parsed, n, day);
        }
    }
    assert(twice =~= once.entries);
}

/// A command is taken for a path exactly when it starts with `.` or contains a `/` or a
/// `\`; nothing else about the text matters.
pub proof fn law_path_like_commands(s: Seq<char>)
    ensures
        is_path_like(s) <==> (s.len() > 0 && s[0] == '.') || (exists|i: int|
            0 <= i < s.len() && (s[i] == '/' || s[i] == '\\')),
{
    if exists|i: int| 0 <= i < s.len() && (s[i] == '/' || s[i] == '\\') {
        let i = choose|i: int| 0 <= i < s.len() && (s[i] == '/' || s[i] == '\\');
        assert(s[i] == '/' || s[i] == '\\');
    }
}

/// A configured path that starts with `/` is kept exactly as it is when the configuration
/// directory carries no drive or UNC prefix (on Unix it is absolute; on Windows it
/// replaces the directory); it is never put under the configuration directory.
pub proof fn law_rooted_paths_are_kept(base: Seq<char>, p: Seq<char>, r: Seq<char>)
    requires
        resolution_of(base, p, r) || joined_to(base, p, r),
        p.len() > 0,
        p[0] == '/',
        !may_have_prefix(base),
    ensures
        r == p,
{
    if resolution_of(base, p, r) {
        let absolute = choose|absolute: bool|
            #![trigger resolved_as(base, p, absolute, r)]
            resolved_as(base, p, absolute, r) && (absolute ==> may_be_absolute(p));
        assert(resolved_as(base, p, absolute, r));
    }
}

/// A path that no platform takes as absolute is put under a configuration directory that
/// needs a separator: the result is the directory, one separator, then the path.
pub proof fn law_relative_paths_go_under_base(base: Seq<char>, p: Seq<char>, r: Seq<char>)
    requires
        resolution_of(base, p, r),
        !may_be_absolute(p),
        needs_separator(base),
    ensures
        r.len() == base.len() + 1 + p.len(),
        r.subrange(0, base.len() as int) == base,
        is_separator(r[base.len() as int]),
        r.subrange(base.len() + 1int, r.len() as int) == p,
{
    let absolute = choose|absolute: bool|
        #![trigger resolved_as(base, p, absolute, r)]
        resolved_as(base, p, absolute, r) && (absolute ==> may_be_absolute(p));
    assert(resolved_as(base, p, absolute, r));
    assert(!absolute);
    let c = choose|c: char| #![trigger is_separator(c)] is_separator(c) && r == base.push(c) + p;
    assert(r.subrange(0, base.len() as int) =~= base);
    assert(r.subrange(base.len() + 1int, r.len() as int) =~= p);
}

/// A day written `YYYY-MM-DD` (zero-padded, years 0 to 9999) is read back as that day.
pub proof fn law_written_days_read_back(year: int, month: int, day: int)
    requires
        0 <= year <= 9999,
        valid_ymd(year, month, day),
    ensures
        parsed_ymd(ymd_text(year, month, day)) == Some(DateView { year, month, day }),
{
    lemma_ymd_text_reads_back(year, month, day);
}

/// A holiday file of the index's region whose dates are written `YYYY-MM-DD` is accepted,
/// and every day it lists has an entry afterwards.
pub proof fn law_files_of_written_days_are_accepted(
    idx: IndexView,
    file_region: Seq<char>,
    dates: Seq<HolidayDate>,
    days: Seq<DateView>,
)
    requires
        region_after_file(idx.region, file_region) is Ok,
        days.len() == dates.len(),
        forall|i: int|
            0 <= i < days.len() ==> #[trigger] days[i].valid() && 0 <= days[i].year <= 9999
                && dates[i].date@ == ymd_text(days[i].year, days[i].month, days[i].day),
    ensures
        index_after_file(idx, file_region, dates, parsed_days(dates)).1 is Ok,
        forall|i: int|
            0 <= i < days.len() ==> index_after_file(
                idx,
                file_region,
                dates,
                parsed_days(dates),
            ).0.entries.contains_key(#[trigger] days[i]),
{
    let parsed = parsed_days(dates);
    assert forall|i: int| 0 <= i < parsed.len() implies #[trigger] parsed[i] == Some(days[i]) by {
        assert(days[i].valid());
        law_written_days_read_back(days[i].year, days[i].month, days[i].day);
    }
    law_file_accepted_iff_all_days_read(idx, file_region, dates, parsed);
    lemma_first_unparsed_bounds(parsed);
    let n = first_unparsed(parsed);
    assert(n == parsed.len());
    assert forall|i: int| 0 <= i < days.len() implies index_after_file(
        idx,
        file_region,
        dates,
        parsed,
    ).0.entries.contains_key(#[trigger] days[i]) by {
        assert(parsed[i] == Some(days[i]));
        lemma_with_listed_agree(idx.entries, idx.entries, dates, parsed, n, i, days[i]);
    }
}

} // verus!
