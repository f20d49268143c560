//! The decisions of fetching, restoring and downloading a meeting week:
//! which catalog keys to try, which week a parsed publication gives, what
//! is pending download and how an item's state changes. The shell performs
//! the catalog calls and file writes between these steps.

use vstd::prelude::*;

use crate::calendar::CivilDate;
use crate::catalog::{checksum_matches, checksum_ok};
use crate::error::AppError;
use crate::jwpub::{covers, date_after, dated_week, yyyymmdd, ParsedPublication};
use crate::media::{CatalogFormat, CatalogKey, CatalogKeyV};
use crate::template::{
    apply_template, apply_template_spec, ensure_outline, ensure_outline_spec, find_template_spec,
    system_template, system_templates_spec, validate_parts, validate_parts_spec, EventTemplate,
};
use crate::text::{dec, owned, push_padded, push_str, str_eq};
use crate::week::{
    copy_opt, empty_week_spec, err_says, fetch_to_week_spec, items_view, iso_text, opt_view,
    parts_view, should_fetch_to_week, strings_view, MediaItem, MediaItemV, MediaStatus,
    MeetingKind, MeetingPart, MeetingPartV, MeetingWeek, MeetingWeekV,
};

verus! {

/// Progress payload. `label` is a short phase name, never a user path.
#[derive(Debug)]
pub struct WeekProgressDto {
    pub phase: String,
    pub done: u32,
    pub total: u32,
    pub label: String,
}

/// Both meetings for one Monday.
#[derive(Debug)]
pub struct WeekBundleDto {
    pub monday: String,
    pub langwritten: String,
    pub midweek: MeetingWeek,
    pub weekend: MeetingWeek,
}

/// A [`WeekBundleDto`] with its strings as characters.
pub struct WeekBundleV {
    pub monday: Seq<char>,
    pub langwritten: Seq<char>,
    pub midweek: MeetingWeekV,
    pub weekend: MeetingWeekV,
}

impl View for WeekBundleDto {
    type V = WeekBundleV;

    open spec fn view(&self) -> WeekBundleV {
        WeekBundleV {
            monday: self.monday@,
            langwritten: self.langwritten@,
            midweek: self.midweek@,
            weekend: self.weekend@,
        }
    }
}

impl WeekBundleDto {
    /// A copy with the same contents.
    pub fn copy(&self) -> (r: WeekBundleDto)
        ensures
            r@ == self@,
    {
        WeekBundleDto {
            monday: self.monday.clone(),
            langwritten: self.langwritten.clone(),
            midweek: self.midweek.copy(),
            weekend: self.weekend.copy(),
        }
    }
}

// ---------------------------------------------------------------------------
// Fetching.
// ---------------------------------------------------------------------------

/// The catalog key of a meeting publication issue.
pub open spec fn pub_key_spec(langwritten: Seq<char>, kind: MeetingKind, issue: Seq<char>) -> CatalogKeyV {
    CatalogKeyV {
        langwritten,
        pub_symbol: crate::week::pub_symbol_of(kind),
        issue: Some(issue),
        track: None,
        format: CatalogFormat::Jwpub,
    }
}

/// The issues tried, in order: all candidates when retrying, else only the first.
pub open spec fn tried_issues(issues: Seq<Seq<char>>, retry: bool) -> Seq<Seq<char>> {
    if retry || issues.len() <= 1 {
        issues
    } else {
        issues.take(1)
    }
}

/// Keys tried when fetching a meeting publication: one per tried issue.
pub fn fetch_pub_keys(langwritten: &str, kind: MeetingKind, issues: &Vec<String>, retry: bool) -> (r: Vec<CatalogKey>)
    ensures
        r@.len() == tried_issues(strings_view(issues@), retry).len(),
        forall|i: int|
            0 <= i < r@.len() ==> #[trigger] r@[i]@ == pub_key_spec(
                langwritten@,
                kind,
                tried_issues(strings_view(issues@), retry)[i],
            ),
{
    let ghost t = tried_issues(strings_view(issues@), retry);
    let n: usize = if retry || issues.len() <= 1 { issues.len() } else { 1 };
    assert(n == t.len());
    let mut r: Vec<CatalogKey> = Vec::new();
    let mut i: usize = 0;
    while i < n
        invariant
            i <= n,
            n == t.len(),
            n <= issues@.len(),
            t == tried_issues(strings_view(issues@), retry),
            r@.len() == i,
            forall|k: int| 0 <= k < r@.len() ==> #[trigger] r@[k]@ == pub_key_spec(langwritten@, kind, t[k]),
        decreases n - i,
    {
        let key = CatalogKey {
            langwritten: owned(langwritten),
            pub_symbol: crate::week::pub_symbol_for(kind),
            issue: Some(issues[i].clone()),
            track: None,
            format: CatalogFormat::Jwpub,
        };
        assert(t[i as int] == issues@[i as int]@);
        r.push(key);
        i = i + 1;
    }
    r
}

/// The weekend meeting a catalog answer gives: a fetched week as it is, an
/// empty weekend week when its issue is not in the catalog, and any other
/// error as it is.
pub fn weekend_or_empty(r: Result<MeetingWeek, AppError>, monday: CivilDate, langwritten: &str) -> (out: Result<MeetingWeek, AppError>)
    ensures
        match r {
            Ok(w) => out == Ok::<MeetingWeek, AppError>(w),
            Err(AppError::CatalogNotFound) => out is Ok && out->Ok_0@ == empty_week_spec(
                monday,
                MeetingKind::Weekend,
                langwritten@,
            ),
            Err(e) => out == Err::<MeetingWeek, AppError>(e),
        },
{
    match r {
        Ok(w) => Ok(w),
        Err(AppError::CatalogNotFound) => Ok(MeetingWeek::empty(monday, MeetingKind::Weekend, langwritten)),
        Err(e) => Err(e),
    }
}

/// Whether a lookup answer moves on to the next issue: only `CatalogNotFound` does.
pub fn lookup_moves_on(err: &AppError) -> (b: bool)
    ensures
        b == (*err is CatalogNotFound),
{
    match err {
        AppError::CatalogNotFound => true,
        _ => false,
    }
}

/// Refuses downloaded publication bytes that do not match the catalog checksum.
pub fn verify_download(bytes: &[u8], checksum: &str) -> (r: Result<(), AppError>)
    ensures
        r is Ok <==> checksum_ok(bytes@, checksum@),
        r is Err ==> err_says(r->Err_0, "catalog checksum mismatch"@),
{
    if !checksum_matches(bytes, checksum) {
        return Err(AppError::rule("catalog checksum mismatch"));
    }
    Ok(())
}

/// The first week of a publication that covers the Monday's week, if any.
pub open spec fn covering_week(p: ParsedPublication, monday: CivilDate) -> Option<MeetingWeekV> {
    let start = yyyymmdd(monday);
    let end = yyyymmdd(date_after(monday, 6));
    if exists|i: int| 0 <= i < p.weeks@.len() && covers(p.weeks@[i]@, start, end) {
        let i = choose|i: int|
            0 <= i < p.weeks@.len() && covers(p.weeks@[i]@, start, end) && forall|j: int|
                0 <= j < i ==> !covers(#[trigger] p.weeks@[j]@, start, end);
        Some(p.weeks@[i]@)
    } else {
        None
    }
}

/// The week a fetched publication gives: the covering week with this
/// Monday, language and issue; else an empty week with the issue and the
/// publication's symbol as title, outlined.
pub open spec fn fetched_week_spec(
    p: ParsedPublication,
    monday: CivilDate,
    kind: MeetingKind,
    langwritten: Seq<char>,
    issue: Seq<char>,
) -> MeetingWeekV {
    match covering_week(p, monday) {
        Some(w) => MeetingWeekV { monday: iso_text(monday), langwritten, issue, ..w },
        None => ensure_outline_spec(
            MeetingWeekV { issue, title: p.symbol@, ..empty_week_spec(monday, kind, langwritten) },
        ),
    }
}

/// Index of the first week covering the Monday's week.
fn covering_index(p: &ParsedPublication, monday: CivilDate) -> (r: Option<usize>)
    requires
        dated_week(monday),
    ensures
        match r {
            Some(i) => i < p.weeks@.len() && covering_week(*p, monday) == Some(p.weeks@[i as int]@),
            None => covering_week(*p, monday) is None,
        },
{
    let w = crate::jwpub::week_covering(p, monday);
    let ghost start = yyyymmdd(monday);
    let ghost end = yyyymmdd(date_after(monday, 6));
    match w {
        None => None,
        Some(found) => {
            let mut i: usize = 0;
            let ghost k = choose|k: int|
                0 <= k < p.weeks@.len() && p.weeks@[k]@ == found@ && covers(p.weeks@[k]@, start, end)
                    && forall|j: int| 0 <= j < k ==> !covers(#[trigger] p.weeks@[j]@, start, end);
            while i < p.weeks.len()
                invariant
                    i <= k,
                    0 <= k < p.weeks@.len(),
                    covers(p.weeks@[k]@, start, end),
                    forall|j: int| 0 <= j < k ==> !covers(#[trigger] p.weeks@[j]@, start, end),
                    start == yyyymmdd(monday),
                    end == yyyymmdd(date_after(monday, 6)),
                    dated_week(monday),
                decreases p.weeks@.len() - i,
            {
                if covers_exec(&p.weeks[i], monday) {
                    assert(i == k) by {
                        if (i as int) < k {
                            assert(!covers(p.weeks@[i as int]@, start, end));
                        }
                    }
                    proof {
                        let c = choose|c: int|
                            0 <= c < p.weeks@.len() && covers(p.weeks@[c]@, start, end) && forall|j: int|
                                0 <= j < c ==> !covers(#[trigger] p.weeks@[j]@, start, end);
                        assert(c == k) by {
                            if c < k {
                                assert(!covers(p.weeks@[c]@, start, end));
                            }
                            if k < c {
                                assert(!covers(p.weeks@[k]@, start, end));
                            }
                        }
                    }
                    return Some(i);
                }
                i = i + 1;
            }
            None
        },
    }
}

/// Whether one week covers the Monday's week.
fn covers_exec(w: &MeetingWeek, monday: CivilDate) -> (b: bool)
    requires
        dated_week(monday),
    ensures
        b == covers(w@, yyyymmdd(monday), yyyymmdd(date_after(monday, 6))),
{
    let single = ParsedPublication { symbol: String::new(), issue: String::new(), weeks: vec![w.copy()] };
    let r = crate::jwpub::week_covering(&single, monday);
    assert(single.weeks@[0]@ == w@);
    r.is_some()
}

/// The week a fetched publication gives for a Monday.
pub fn fetched_week(
    parsed: &ParsedPublication,
    monday: CivilDate,
    kind: MeetingKind,
    langwritten: &str,
    issue: &str,
) -> (r: MeetingWeek)
    requires
        dated_week(monday),
    ensures
        r@ == fetched_week_spec(*parsed, monday, kind, langwritten@, issue@),
{
    match covering_index(parsed, monday) {
        Some(i) => {
            let mut w = parsed.weeks[i].copy();
            w.monday = monday.to_iso();
            w.langwritten = owned(langwritten);
            w.issue = owned(issue);
            w
        },
        None => {
            let mut empty = MeetingWeek::empty(monday, kind, langwritten);
            empty.issue = owned(issue);
            empty.title = parsed.symbol.clone();
            ensure_outline(&mut empty);
            empty
        },
    }
}

/// The week restored from a cached publication: the covering week with this
/// Monday and language, else an empty week titled with the symbol; an
/// empty week when there is no readable publication. Always outlined.
pub open spec fn restored_week_spec(
    p: Option<ParsedPublication>,
    monday: CivilDate,
    kind: MeetingKind,
    langwritten: Seq<char>,
) -> MeetingWeekV {
    match p {
        None => ensure_outline_spec(empty_week_spec(monday, kind, langwritten)),
        Some(p) => match covering_week(p, monday) {
            Some(w) => ensure_outline_spec(MeetingWeekV { monday: iso_text(monday), langwritten, ..w }),
            None => ensure_outline_spec(
                MeetingWeekV { title: p.symbol@, ..empty_week_spec(monday, kind, langwritten) },
            ),
        },
    }
}

/// The week restored from a cached publication (`None` when the file is
/// missing or does not parse).
pub fn restored_week(
    parsed: Option<&ParsedPublication>,
    monday: CivilDate,
    kind: MeetingKind,
    langwritten: &str,
) -> (r: MeetingWeek)
    requires
        parsed is Some ==> dated_week(monday),
    ensures
        r@ == restored_week_spec(
            match parsed {
                Some(p) => Some(*p),
                None => None,
            },
            monday,
            kind,
            langwritten@,
        ),
{
    match parsed {
        None => {
            let mut empty = MeetingWeek::empty(monday, kind, langwritten);
            ensure_outline(&mut empty);
            empty
        },
        Some(p) => match covering_index(p, monday) {
            Some(i) => {
                let mut w = p.weeks[i].copy();
                w.monday = monday.to_iso();
                w.langwritten = owned(langwritten);
                ensure_outline(&mut w);
                w
            },
            None => {
                let mut empty = MeetingWeek::empty(monday, kind, langwritten);
                empty.title = p.symbol.clone();
                ensure_outline(&mut empty);
                empty
            },
        },
    }
}

/// Re-reads both meetings of a Monday from cached publications.
pub fn restore_from_cache(
    langwritten: &str,
    monday: CivilDate,
    midweek: Option<&ParsedPublication>,
    weekend: Option<&ParsedPublication>,
) -> (r: WeekBundleDto)
    requires
        midweek is Some || weekend is Some ==> dated_week(monday),
    ensures
        r.monday@ == iso_text(monday),
        r.langwritten@ == langwritten@,
        r.midweek@ == restored_week_spec(
            match midweek {
                Some(p) => Some(*p),
                None => None,
            },
            monday,
            MeetingKind::Midweek,
            langwritten@,
        ),
        r.weekend@ == restored_week_spec(
            match weekend {
                Some(p) => Some(*p),
                None => None,
            },
            monday,
            MeetingKind::Weekend,
            langwritten@,
        ),
{
    WeekBundleDto {
        monday: monday.to_iso(),
        langwritten: owned(langwritten),
        midweek: restored_week(midweek, monday, MeetingKind::Midweek, langwritten),
        weekend: restored_week(weekend, monday, MeetingKind::Weekend, langwritten),
    }
}

/// Both meetings of a Monday as stored for a profile, with an empty week
/// for a meeting that has none stored yet.
pub fn bundle_from_stored(
    monday: CivilDate,
    langwritten: &str,
    midweek: Option<MeetingWeek>,
    weekend: Option<MeetingWeek>,
) -> (r: WeekBundleDto)
    ensures
        r.monday@ == iso_text(monday),
        r.langwritten@ == langwritten@,
        r.midweek@ == (match midweek {
            Some(w) => w@,
            None => empty_week_spec(monday, MeetingKind::Midweek, langwritten@),
        }),
        r.weekend@ == (match weekend {
            Some(w) => w@,
            None => empty_week_spec(monday, MeetingKind::Weekend, langwritten@),
        }),
{
    let midweek = match midweek {
        Some(w) => w,
        None => MeetingWeek::empty(monday, MeetingKind::Midweek, langwritten),
    };
    let weekend = match weekend {
        Some(w) => w,
        None => MeetingWeek::empty(monday, MeetingKind::Weekend, langwritten),
    };
    WeekBundleDto { monday: monday.to_iso(), langwritten: owned(langwritten), midweek, weekend }
}

// ---------------------------------------------------------------------------
// Downloading.
// ---------------------------------------------------------------------------

/// File name of a downloaded video: `{pub}_{issue or 0}_{track or 0}.mp4`.
pub open spec fn video_file_spec(k: CatalogKeyV) -> Seq<char> {
    k.pub_symbol + "_"@ + (match k.issue {
        Some(i) => i,
        None => "0"@,
    }) + "_"@ + dec(
        match k.track {
            Some(t) => t as nat,
            None => 0,
        },
    ) + ".mp4"@
}

/// File name of a downloaded video.
pub fn video_file_name(key: &CatalogKey) -> (s: String)
    ensures
        s@ == video_file_spec(key@),
{
    let mut s = key.pub_symbol.clone();
    push_str(&mut s, "_");
    match &key.issue {
        Some(i) => push_str(&mut s, i.as_str()),
        None => push_str(&mut s, "0"),
    }
    push_str(&mut s, "_");
    let t: u32 = match key.track {
        Some(t) => t,
        None => 0,
    };
    push_padded(&mut s, t as u64, 0);
    proof {
        crate::text::lemma_pad_dec_zero(t as nat);
    }
    push_str(&mut s, ".mp4");
    s
}

/// Ids of the items of some rows that should be downloaded, in order.
pub open spec fn pending_in_items(items: Seq<MediaItemV>) -> Seq<Seq<char>>
    decreases items.len(),
{
    if items.len() == 0 {
        Seq::empty()
    } else {
        let r = pending_in_items(items.drop_last());
        if fetch_to_week_spec(items.last()) {
            r.push(items.last().id)
        } else {
            r
        }
    }
}

/// Ids of a week's items that should be downloaded: row items first, then leftovers.
pub open spec fn pending_ids_spec(w: MeetingWeekV) -> Seq<Seq<char>> {
    pending_in_items(crate::template::flat_items(w.parts) + w.media)
}

/// Appends the ids of the pending items of `items`.
fn push_pending(items: &Vec<MediaItem>, ids: &mut Vec<String>)
    ensures
        strings_view(final(ids)@) == strings_view(old(ids)@) + pending_in_items(items_view(items@)),
{
    let ghost iv = items_view(items@);
    let mut i: usize = 0;
    while i < items.len()
        invariant
            i <= items@.len(),
            iv == items_view(items@),
            strings_view(ids@) == strings_view(old(ids)@) + pending_in_items(iv.take(i as int)),
        decreases items@.len() - i,
    {
        assert(iv.take(i + 1).drop_last() =~= iv.take(i as int));
        assert(iv.take(i + 1).last() == items@[i as int]@);
        if should_fetch_to_week(&items[i]) {
            let ghost before = ids@;
            ids.push(items[i].id.clone());
            assert(strings_view(ids@) =~= strings_view(before).push(items@[i as int].id@));
        }
        i = i + 1;
    }
    assert(iv.take(iv.len() as int) =~= iv);
}

proof fn lemma_pending_concat(a: Seq<MediaItemV>, b: Seq<MediaItemV>)
    ensures
        pending_in_items(a + b) == pending_in_items(a) + pending_in_items(b),
    decreases b.len(),
{
    if b.len() == 0 {
        assert(a + b =~= a);
        assert(pending_in_items(a) + pending_in_items(b) =~= pending_in_items(a));
    } else {
        lemma_pending_concat(a, b.drop_last());
        assert((a + b).drop_last() =~= a + b.drop_last());
        assert((a + b).last() == b.last());
        if fetch_to_week_spec(b.last()) {
            assert(pending_in_items(a) + pending_in_items(b) =~= (pending_in_items(a)
                + pending_in_items(b.drop_last())).push(b.last().id));
        }
    }
}

/// Appends the ids of a week's items that should be downloaded into `week/`.
pub fn collect_pending_ids(week: &MeetingWeek, ids: &mut Vec<String>)
    ensures
        strings_view(final(ids)@) == strings_view(old(ids)@) + pending_ids_spec(week@),
{
    let ghost ps = parts_view(week.parts@);
    let mut i: usize = 0;
    while i < week.parts.len()
        invariant
            i <= week.parts@.len(),
            ps == parts_view(week.parts@),
            strings_view(ids@) == strings_view(old(ids)@) + pending_in_items(
                crate::template::flat_items(ps.take(i as int)),
            ),
        decreases week.parts@.len() - i,
    {
        let ghost before = strings_view(ids@);
        push_pending(&week.parts[i].items, ids);
        proof {
            assert(ps.take(i + 1).drop_last() =~= ps.take(i as int));
            lemma_pending_concat(crate::template::flat_items(ps.take(i as int)), ps[i as int].items);
            assert(strings_view(ids@) =~= strings_view(old(ids)@) + pending_in_items(
                crate::template::flat_items(ps.take(i + 1)),
            ));
        }
        i = i + 1;
    }
    assert(ps.take(ps.len() as int) =~= ps);
    push_pending(&week.media, ids);
    proof {
        lemma_pending_concat(crate::template::flat_items(ps), items_view(week.media@));
        assert(strings_view(ids@) =~= strings_view(old(ids)@) + pending_ids_spec(week@));
    }
}

/// Index of the first item with this id.
#[verifier::opaque]
pub open spec fn first_item(items: Seq<MediaItemV>, id: Seq<char>) -> Option<int> {
    if exists|k: int| 0 <= k < items.len() && items[k].id == id {
        Some(choose|k: int| 0 <= k < items.len() && items[k].id == id && forall|j: int| 0 <= j < k ==> items[j].id != id)
    } else {
        None
    }
}

/// Index of the first row holding an item with this id.
#[verifier::opaque]
pub open spec fn first_part(parts: Seq<MeetingPartV>, id: Seq<char>) -> Option<int> {
    if exists|p: int| 0 <= p < parts.len() && first_item(parts[p].items, id) is Some {
        Some(choose|p: int| 0 <= p < parts.len() && first_item(parts[p].items, id) is Some && forall|j: int| 0 <= j < p ==> first_item(parts[j].items, id) is None)
    } else {
        None
    }
}

/// The item with its download state changed.
pub open spec fn item_marked(it: MediaItemV, status: MediaStatus, cache: Option<Option<Seq<char>>>) -> MediaItemV {
    MediaItemV {
        status,
        cache_path: match cache {
            Some(c) => c,
            None => it.cache_path,
        },
        ..it
    }
}

/// A week with the first item of this id (rows first, then leftovers)
/// marked, and whether there was one.
pub open spec fn week_marked(w: MeetingWeekV, id: Seq<char>, status: MediaStatus, cache: Option<Option<Seq<char>>>) -> (MeetingWeekV, bool) {
    match first_part(w.parts, id) {
        Some(p) => {
            let k = first_item(w.parts[p].items, id)->0;
            let part = w.parts[p];
            let items = part.items.update(k, item_marked(part.items[k], status, cache));
            (MeetingWeekV { parts: w.parts.update(p, MeetingPartV { items, ..part }), ..w }, true)
        },
        None => match first_item(w.media, id) {
            Some(k) => (MeetingWeekV { media: w.media.update(k, item_marked(w.media[k], status, cache)), ..w }, true),
            None => (w, false),
        },
    }
}

/// A bundle with the first item of this id (midweek first) marked, and
/// whether there was one.
pub open spec fn bundle_marked(b: WeekBundleV, id: Seq<char>, status: MediaStatus, cache: Option<Option<Seq<char>>>) -> (WeekBundleV, bool) {
    let (m, found) = week_marked(b.midweek, id, status, cache);
    if found {
        (WeekBundleV { midweek: m, ..b }, true)
    } else {
        let (w, found2) = week_marked(b.weekend, id, status, cache);
        (WeekBundleV { weekend: w, ..b }, found2)
    }
}

/// Index of the first item with this id.
pub fn find_item(items: &Vec<MediaItem>, id: &str) -> (r: Option<usize>)
    ensures
        match r {
            Some(k) => k < items@.len() && first_item(items_view(items@), id@) == Some(k as int),
            None => first_item(items_view(items@), id@) is None,
        },
{
    reveal(first_item);
    let ghost iv = items_view(items@);
    let mut i: usize = 0;
    while i < items.len()
        invariant
            i <= items@.len(),
            iv == items_view(items@),
            forall|j: int| 0 <= j < i ==> iv[j].id != id@,
        decreases items@.len() - i,
    {
        assert(iv[i as int] == items@[i as int]@);
        if str_eq(items[i].id.as_str(), id) {
            reveal(first_item);
            assert(iv[i as int].id == id@);
            let ghost c = choose|k: int| 0 <= k < iv.len() && iv[k].id == id@ && forall|j: int| 0 <= j < k ==> iv[j].id != id@;
            assert(c == i) by {
                if c < i {
                    assert(iv[c].id != id@);
                }
                if i < c {
                    assert(iv[i as int].id != id@);
                }
            }
            return Some(i);
        }
        i = i + 1;
    }
    None
}

/// Marks one item of a list.
fn mark_at(items: &mut Vec<MediaItem>, k: usize, status: MediaStatus, cache: Option<Option<String>>)
    requires
        k < old(items)@.len(),
    ensures
        items_view(final(items)@) == items_view(old(items)@).update(
            k as int,
            item_marked(
                old(items)@[k as int]@,
                status,
                match cache {
                    Some(c) => Some(opt_view(c)),
                    None => None,
                },
            ),
        ),
{
    let mut it = items.remove(k);
    it.status = status;
    match cache {
        Some(c) => {
            it.cache_path = c;
        },
        None => {},
    }
    items.insert(k, it);
    assert(items_view(items@) =~= items_view(old(items)@).update(
        k as int,
        item_marked(
            old(items)@[k as int]@,
            status,
            match cache {
                Some(c) => Some(opt_view(c)),
                None => None,
            },
        ),
    ));
}

/// Marks the first item of this id in a week; false when there is none.
#[verifier::rlimit(40)]
fn mark_in_week(week: &mut MeetingWeek, id: &str, status: MediaStatus, cache: Option<Option<String>>) -> (found: bool)
    ensures
        (final(week)@, found) == week_marked(
            old(week)@,
            id@,
            status,
            match cache {
                Some(c) => Some(opt_view(c)),
                None => None,
            },
        ),
{
    let ghost ps = parts_view(week.parts@);
    let mut p: usize = 0;
    while p < week.parts.len()
        invariant
            p <= week.parts@.len(),
            ps == parts_view(week.parts@),
            week@ == old(week)@,
            forall|j: int| 0 <= j < p ==> first_item(#[trigger] ps[j].items, id@) is None,
        decreases week.parts@.len() - p,
    {
        assert(ps[p as int] == week.parts@[p as int]@);
        match find_item(&week.parts[p].items, id) {
            Some(k) => {
                proof {
                    reveal(first_part);
                    assert(first_item(ps[p as int].items, id@) is Some);
                    let c = choose|q: int| 0 <= q < ps.len() && first_item(ps[q].items, id@) is Some && forall|j: int| 0 <= j < q ==> first_item(ps[j].items, id@) is None;
                    assert(c == p) by {
                        if c < p {
                            assert(first_item(ps[c].items, id@) is None);
                        }
                        if p < c {
                            assert(first_item(ps[p as int].items, id@) is None);
                        }
                    }
                }
                let mut part = week.parts.remove(p);
                mark_at(&mut part.items, k, status, cache);
                week.parts.insert(p, part);
                assert(parts_view(week.parts@) =~= ps.update(p as int, part@));
                return true;
            },
            None => {},
        }
        p = p + 1;
    }
    assert(first_part(ps, id@) is None) by {
        reveal(first_part);
    }
    match find_item(&week.media, id) {
        Some(k) => {
            mark_at(&mut week.media, k, status, cache);
            true
        },
        None => false,
    }
}

/// Marks the first item of this id in the bundle (midweek first) with a
/// download outcome: a new status and, when given, a new cache path.
/// Returns false when no item has the id.
pub fn mark_item(bundle: &mut WeekBundleDto, id: &str, status: MediaStatus, cache: Option<Option<String>>) -> (found: bool)
    ensures
        (final(bundle)@, found) == bundle_marked(
            old(bundle)@,
            id@,
            status,
            match cache {
                Some(c) => Some(opt_view(c)),
                None => None,
            },
        ),
{
    let found = mark_in_week(&mut bundle.midweek, id, status, copy_cache(&cache));
    if found {
        return true;
    }
    mark_in_week(&mut bundle.weekend, id, status, cache)
}

/// A copy of an optional cache update.
fn copy_cache(c: &Option<Option<String>>) -> (r: Option<Option<String>>)
    ensures
        match (r, *c) {
            (Some(a), Some(b)) => opt_view(a) == opt_view(b),
            (None, None) => true,
            _ => false,
        },
{
    match c {
        Some(x) => Some(copy_opt(x)),
        None => None,
    }
}

// ---------------------------------------------------------------------------
// Editing a loaded bundle.
// ---------------------------------------------------------------------------

/// Applies a template to one meeting of a bundle.
pub fn apply_template_to_bundle(bundle: &mut WeekBundleDto, meeting: MeetingKind, template: &EventTemplate)
    ensures
        meeting == MeetingKind::Midweek ==> final(bundle)@ == (WeekBundleV {
            midweek: apply_template_spec(old(bundle)@.midweek, template@),
            ..old(bundle)@
        }),
        meeting == MeetingKind::Weekend ==> final(bundle)@ == (WeekBundleV {
            weekend: apply_template_spec(old(bundle)@.weekend, template@),
            ..old(bundle)@
        }),
{
    match meeting {
        MeetingKind::Midweek => apply_template(&mut bundle.midweek, template),
        MeetingKind::Weekend => apply_template(&mut bundle.weekend, template),
    }
}

/// Replaces the rows of one meeting after validating them; on a refusal
/// the bundle is unchanged.
pub fn set_bundle_parts(bundle: &mut WeekBundleDto, meeting: MeetingKind, parts: Vec<MeetingPart>) -> (r: Result<(), AppError>)
    ensures
        match validate_parts_spec(parts_view(parts@)) {
            None => r is Ok,
            Some(msg) => r is Err && err_says(r->Err_0, msg),
        },
        r is Err ==> final(bundle)@ == old(bundle)@,
        r is Ok && meeting == MeetingKind::Midweek ==> final(bundle)@ == (WeekBundleV {
            midweek: MeetingWeekV { parts: parts_view(parts@), ..old(bundle)@.midweek },
            ..old(bundle)@
        }),
        r is Ok && meeting == MeetingKind::Weekend ==> final(bundle)@ == (WeekBundleV {
            weekend: MeetingWeekV { parts: parts_view(parts@), ..old(bundle)@.weekend },
            ..old(bundle)@
        }),
{
    match validate_parts(&parts) {
        Ok(()) => {},
        Err(e) => return Err(e),
    }
    match meeting {
        MeetingKind::Midweek => {
            bundle.midweek.parts = parts;
        },
        MeetingKind::Weekend => {
            bundle.weekend.parts = parts;
        },
    }
    Ok(())
}

/// Reads the IPC `meeting` field.
pub fn parse_meeting_kind(raw: &str) -> (r: Result<MeetingKind, AppError>)
    ensures
        raw@ == "midweek"@ ==> r == Ok::<MeetingKind, AppError>(MeetingKind::Midweek),
        raw@ == "weekend"@ ==> r == Ok::<MeetingKind, AppError>(MeetingKind::Weekend),
        raw@ != "midweek"@ && raw@ != "weekend"@ ==> r is Err && err_says(
            r->Err_0,
            "meeting must be midweek or weekend"@,
        ),
{
    proof {
        reveal_strlit("midweek");
        reveal_strlit("weekend");
        assert("weekend"@ != "midweek"@) by {
            assert("weekend"@[0] != "midweek"@[0]);
        }
    }
    if str_eq(raw, "midweek") {
        Ok(MeetingKind::Midweek)
    } else if str_eq(raw, "weekend") {
        Ok(MeetingKind::Weekend)
    } else {
        Err(AppError::rule("meeting must be midweek or weekend"))
    }
}

/// Resolves a system template id, titled for `langwritten`.
pub fn resolve_system_template(id: &str, langwritten: &str) -> (r: Option<EventTemplate>)
    ensures
        match find_template_spec(system_templates_spec(langwritten@), id@) {
            Some(t) => r is Some && r->0@ == t,
            None => r is None,
        },
{
    system_template(id, langwritten)
}

/// Applying a template to one meeting leaves the other meeting of the bundle untouched.
pub proof fn law_apply_touches_one_meeting(b: WeekBundleV, t: crate::template::EventTemplateV)
    ensures
        (WeekBundleV { midweek: apply_template_spec(b.midweek, t), ..b }).weekend == b.weekend,
        (WeekBundleV { weekend: apply_template_spec(b.weekend, t), ..b }).midweek == b.midweek,
{
}

} // verus!
