//! Meeting week model, calendar helpers, and cache paths.
//!
//! "This week" is the ISO Monday–Sunday that contains the operator's local
//! date. Fetching never happens at process start.

use vstd::prelude::*;
use vstd::string::*;
use vstd::utf8::*;

use crate::calendar::{
    civil_from_unix_days, in_range, unix_days_spec, valid_date, weekday_spec, CivilDate,
};
use crate::error::AppError;
use crate::text::{
    digit_field, digit_field_exec, digits_value, fixed_dec, int_text, owned, pad_dec, pad_int,
    push_char, push_padded, push_padded_int, str_eq,
};

verus! {

/// Which meeting a persisted `MeetingWeek` describes.
#[derive(Debug, Clone, Copy, PartialEq, Eq, Structural)]
pub enum MeetingKind {
    Midweek,
    Weekend,
}

/// Which rolling week the operator asked for.
#[derive(Debug, Clone, Copy, PartialEq, Eq, Structural)]
pub enum WeekWhich {
    This,
    Next,
}

/// Kind of a listed medium.
#[derive(Debug, Clone, Copy, PartialEq, Eq, Structural)]
pub enum MediaKind {
    Image,
    Video,
    Song,
}

/// Cache / download state painted in the Multimedia tree.
#[derive(Debug, Clone, Copy, PartialEq, Eq, Structural)]
pub enum MediaStatus {
    Embedded,
    Ready,
    Pending,
    PendingHymnal,
    Failed,
}

/// How a medium is addressed. The console never sees CDN URLs.
#[derive(Debug, Clone)]
pub enum MediaRef {
    Embedded { path: String },
    Catalog { key_symbol: String, track: u32, lang_meps: i64, issue_tag: i64, mime: String },
}

/// One image, video, or song slot under a part.
#[derive(Debug, Clone)]
pub struct MediaItem {
    pub id: String,
    pub title: String,
    pub media_kind: MediaKind,
    pub status: MediaStatus,
    pub mime: String,
    pub media_ref: MediaRef,
    /// Absolute path under `week/` when the file is on disk. Preview only.
    pub cache_path: Option<String>,
}

/// One row of the meeting outline.
#[derive(Debug, Clone)]
pub struct MeetingPart {
    pub id: String,
    pub title: String,
    pub minutes: Option<u32>,
    /// `treasures` | `ayf` | `living` | `song` | `other`
    pub tone: String,
    pub items: Vec<MediaItem>,
}

/// Normalised programme for one meeting on one Monday.
#[derive(Debug, Clone)]
pub struct MeetingWeek {
    pub monday: String,
    pub kind: MeetingKind,
    pub title: String,
    pub langwritten: String,
    pub pub_symbol: String,
    pub issue: String,
    pub parts: Vec<MeetingPart>,
    /// Leftover images/videos not shown as timer rows.
    pub media: Vec<MediaItem>,
}

/// A [`MediaRef`] with its strings as characters.
pub enum MediaRefV {
    Embedded { path: Seq<char> },
    Catalog { key_symbol: Seq<char>, track: u32, lang_meps: i64, issue_tag: i64, mime: Seq<char> },
}

/// A [`MediaItem`] with its strings as characters.
pub struct MediaItemV {
    pub id: Seq<char>,
    pub title: Seq<char>,
    pub media_kind: MediaKind,
    pub status: MediaStatus,
    pub mime: Seq<char>,
    pub media_ref: MediaRefV,
    pub cache_path: Option<Seq<char>>,
}

/// A [`MeetingPart`] with its strings as characters.
pub struct MeetingPartV {
    pub id: Seq<char>,
    pub title: Seq<char>,
    pub minutes: Option<u32>,
    pub tone: Seq<char>,
    pub items: Seq<MediaItemV>,
}

/// A [`MeetingWeek`] with its strings as characters.
pub struct MeetingWeekV {
    pub monday: Seq<char>,
    pub kind: MeetingKind,
    pub title: Seq<char>,
    pub langwritten: Seq<char>,
    pub pub_symbol: Seq<char>,
    pub issue: Seq<char>,
    pub parts: Seq<MeetingPartV>,
    pub media: Seq<MediaItemV>,
}

/// Characters of an optional string.
pub open spec fn opt_view(o: Option<String>) -> Option<Seq<char>> {
    match o {
        Some(s) => Some(s@),
        None => None,
    }
}

impl View for MediaRef {
    type V = MediaRefV;

    open spec fn view(&self) -> MediaRefV {
        match self {
            MediaRef::Embedded { path } => MediaRefV::Embedded { path: path@ },
            MediaRef::Catalog { key_symbol, track, lang_meps, issue_tag, mime } => {
                MediaRefV::Catalog {
                    key_symbol: key_symbol@,
                    track: *track,
                    lang_meps: *lang_meps,
                    issue_tag: *issue_tag,
                    mime: mime@,
                }
            },
        }
    }
}

impl View for MediaItem {
    type V = MediaItemV;

    open spec fn view(&self) -> MediaItemV {
        MediaItemV {
            id: self.id@,
            title: self.title@,
            media_kind: self.media_kind,
            status: self.status,
            mime: self.mime@,
            media_ref: self.media_ref@,
            cache_path: opt_view(self.cache_path),
        }
    }
}

/// Views of a list of media items.
pub open spec fn items_view(v: Seq<MediaItem>) -> Seq<MediaItemV> {
    v.map_values(|i: MediaItem| i@)
}

impl View for MeetingPart {
    type V = MeetingPartV;

    open spec fn view(&self) -> MeetingPartV {
        MeetingPartV {
            id: self.id@,
            title: self.title@,
            minutes: self.minutes,
            tone: self.tone@,
            items: items_view(self.items@),
        }
    }
}

/// Views of a list of parts.
pub open spec fn parts_view(v: Seq<MeetingPart>) -> Seq<MeetingPartV> {
    v.map_values(|p: MeetingPart| p@)
}

impl View for MeetingWeek {
    type V = MeetingWeekV;

    open spec fn view(&self) -> MeetingWeekV {
        MeetingWeekV {
            monday: self.monday@,
            kind: self.kind,
            title: self.title@,
            langwritten: self.langwritten@,
            pub_symbol: self.pub_symbol@,
            issue: self.issue@,
            parts: parts_view(self.parts@),
            media: items_view(self.media@),
        }
    }
}

/// A copy of an optional string.
pub fn copy_opt(o: &Option<String>) -> (r: Option<String>)
    ensures
        opt_view(r) == opt_view(*o),
{
    match o {
        Some(s) => Some(s.clone()),
        None => None,
    }
}

impl MediaRef {
    /// A copy with the same contents.
    pub fn copy(&self) -> (r: MediaRef)
        ensures
            r@ == self@,
    {
        match self {
            MediaRef::Embedded { path } => MediaRef::Embedded { path: path.clone() },
            MediaRef::Catalog { key_symbol, track, lang_meps, issue_tag, mime } => {
                MediaRef::Catalog {
                    key_symbol: key_symbol.clone(),
                    track: *track,
                    lang_meps: *lang_meps,
                    issue_tag: *issue_tag,
                    mime: mime.clone(),
                }
            },
        }
    }
}

impl MediaItem {
    /// A copy with the same contents.
    pub fn copy(&self) -> (r: MediaItem)
        ensures
            r@ == self@,
    {
        MediaItem {
            id: self.id.clone(),
            title: self.title.clone(),
            media_kind: self.media_kind,
            status: self.status,
            mime: self.mime.clone(),
            media_ref: self.media_ref.copy(),
            cache_path: copy_opt(&self.cache_path),
        }
    }
}

/// A copy of a list of media items.
pub fn copy_items(v: &Vec<MediaItem>) -> (r: Vec<MediaItem>)
    ensures
        items_view(r@) == items_view(v@),
{
    let mut r: Vec<MediaItem> = Vec::new();
    let mut i: usize = 0;
    while i < v.len()
        invariant
            i <= v@.len(),
            items_view(r@) == items_view(v@.take(i as int)),
        decreases v@.len() - i,
    {
        let c = v[i].copy();
        let ghost old_r = r@;
        r.push(c);
        proof {
            assert(v@.take(i + 1) =~= v@.take(i as int).push(v@[i as int]));
            assert(items_view(r@) =~= items_view(old_r).push(c@));
            assert(items_view(v@.take(i + 1)) =~= items_view(v@.take(i as int)).push(v@[i as int]@));
        }
        i = i + 1;
    }
    assert(v@.take(v@.len() as int) =~= v@);
    r
}

impl MeetingPart {
    /// A copy with the same contents.
    pub fn copy(&self) -> (r: MeetingPart)
        ensures
            r@ == self@,
    {
        MeetingPart {
            id: self.id.clone(),
            title: self.title.clone(),
            minutes: self.minutes,
            tone: self.tone.clone(),
            items: copy_items(&self.items),
        }
    }
}

/// A copy of a list of parts.
pub fn copy_parts(v: &Vec<MeetingPart>) -> (r: Vec<MeetingPart>)
    ensures
        parts_view(r@) == parts_view(v@),
{
    let mut r: Vec<MeetingPart> = Vec::new();
    let mut i: usize = 0;
    while i < v.len()
        invariant
            i <= v@.len(),
            parts_view(r@) == parts_view(v@.take(i as int)),
        decreases v@.len() - i,
    {
        let c = v[i].copy();
        let ghost old_r = r@;
        r.push(c);
        proof {
            assert(v@.take(i + 1) =~= v@.take(i as int).push(v@[i as int]));
            assert(parts_view(r@) =~= parts_view(old_r).push(c@));
            assert(parts_view(v@.take(i + 1)) =~= parts_view(v@.take(i as int)).push(v@[i as int]@));
        }
        i = i + 1;
    }
    assert(v@.take(v@.len() as int) =~= v@);
    r
}

impl MeetingWeek {
    /// A copy with the same contents.
    pub fn copy(&self) -> (r: MeetingWeek)
        ensures
            r@ == self@,
    {
        MeetingWeek {
            monday: self.monday.clone(),
            kind: self.kind,
            title: self.title.clone(),
            langwritten: self.langwritten.clone(),
            pub_symbol: self.pub_symbol.clone(),
            issue: self.issue.clone(),
            parts: copy_parts(&self.parts),
            media: copy_items(&self.media),
        }
    }
}

/// Default tone of a part row.
pub fn default_tone() -> (s: String)
    ensures
        s@ == "other"@,
{
    owned("other")
}

/// `YYYY-MM-DD` text of a date.
pub open spec fn iso_text(d: CivilDate) -> Seq<char> {
    pad_int(d.year as int, 4) + seq!['-'] + pad_dec(d.month as nat, 2) + seq!['-'] + pad_dec(
        d.day as nat,
        2,
    )
}

/// `YYYYMM` text of a date's month.
pub open spec fn issue_text(year: int, month: nat) -> Seq<char> {
    pad_int(year, 4) + pad_dec(month, 2)
}

/// Result of reading `YYYY-MM-DD` bytes: the date, or the complaint. Each
/// field is ASCII digits only.
pub open spec fn parse_iso_spec(b: Seq<u8>) -> Result<CivilDate, Seq<char>> {
    if b.len() != 10 || b[4] != 45 || b[7] != 45 {
        Err("date must be YYYY-MM-DD"@)
    } else {
        match digit_field(b.subrange(0, 4)) {
            None => Err("invalid year"@),
            Some(y) => match digit_field(b.subrange(5, 7)) {
                None => Err("invalid month"@),
                Some(m) => match digit_field(b.subrange(8, 10)) {
                    None => Err("invalid day"@),
                    Some(d) => if 1 <= m <= 12 && 1 <= d <= 31 {
                        Ok(CivilDate { year: y as i32, month: m as u8, day: d as u8 })
                    } else {
                        Err("invalid calendar date"@)
                    },
                },
            },
        }
    }
}

/// Result of reading `YYYYMM` bytes (ASCII digits only) and stepping back
/// one month.
pub open spec fn previous_month_spec(b: Seq<u8>) -> Result<Seq<char>, Seq<char>> {
    if b.len() != 6 {
        Err("issue must be YYYYMM"@)
    } else {
        match digit_field(b.subrange(0, 4)) {
            None => Err("invalid issue year"@),
            Some(y) => match digit_field(b.subrange(4, 6)) {
                None => Err("invalid issue month"@),
                Some(m) => if !(1 <= m <= 12) {
                    Err("invalid issue month"@)
                } else if m == 1 {
                    Ok(issue_text(y - 1, 12))
                } else {
                    Ok(issue_text(y as int, (m - 1) as nat))
                },
            },
        }
    }
}

/// `YYYY-MM-DD` text of a date with a four-digit year, as its three
/// fixed-width digit fields.
proof fn lemma_iso_text_fields(d: CivilDate)
    requires
        0 <= d.year <= 9999,
        d.month <= 99,
        d.day <= 99,
    ensures
        iso_text(d) == fixed_dec(d.year as nat, 4) + seq!['-'] + fixed_dec(d.month as nat, 2) + seq!['-']
            + fixed_dec(d.day as nat, 2),
        iso_text(d).len() == 10,
        is_ascii_chars(iso_text(d)),
{
    crate::text::lemma_digit_field_bound(Seq::<u8>::empty());
    crate::text::lemma_pad_dec_fixed(d.year as nat, 4);
    crate::text::lemma_pad_dec_fixed(d.month as nat, 2);
    crate::text::lemma_pad_dec_fixed(d.day as nat, 2);
    crate::text::lemma_fixed_dec_len(d.year as nat, 4);
    crate::text::lemma_fixed_dec_len(d.month as nat, 2);
    crate::text::lemma_fixed_dec_len(d.day as nat, 2);
    crate::text::lemma_fixed_dec_ascii(d.year as nat, 4);
    crate::text::lemma_fixed_dec_ascii(d.month as nat, 2);
    crate::text::lemma_fixed_dec_ascii(d.day as nat, 2);
    let t = iso_text(d);
    assert forall|i: int| 0 <= i < t.len() implies '\0' <= #[trigger] t[i] <= '\u{7f}' by {
        if i < 4 {
            assert(t[i] == fixed_dec(d.year as nat, 4)[i]);
        } else if 5 <= i < 7 {
            assert(t[i] == fixed_dec(d.month as nat, 2)[i - 5]);
        } else if 8 <= i {
            assert(t[i] == fixed_dec(d.day as nat, 2)[i - 8]);
        }
    }
}

/// A date with a four-digit year, a month and a day reads back from its
/// `YYYY-MM-DD` text.
pub proof fn law_iso_text_reads_back(d: CivilDate)
    requires
        0 <= d.year <= 9999,
        1 <= d.month <= 12,
        1 <= d.day <= 31,
    ensures
        parse_iso_spec(encode_utf8(iso_text(d))) == Ok::<CivilDate, Seq<char>>(d),
{
    lemma_iso_text_fields(d);
    let t = iso_text(d);
    let b = encode_utf8(t);
    is_ascii_chars_encode_utf8(t);
    let fy = fixed_dec(d.year as nat, 4);
    let fm = fixed_dec(d.month as nat, 2);
    let fd = fixed_dec(d.day as nat, 2);
    crate::text::lemma_digit_field_bound(Seq::<u8>::empty());
    crate::text::lemma_fixed_dec_len(d.year as nat, 4);
    crate::text::lemma_fixed_dec_len(d.month as nat, 2);
    crate::text::lemma_fixed_dec_len(d.day as nat, 2);
    let by = b.subrange(0, 4);
    let bm = b.subrange(5, 7);
    let bd = b.subrange(8, 10);
    assert forall|i: int| 0 <= i < 4 implies by[i] == #[trigger] fy[i] as u8 by {
        assert(t[i] == fy[i]);
        assert(b[i] == t[i] as u8);
    }
    assert forall|i: int| 0 <= i < 2 implies bm[i] == #[trigger] fm[i] as u8 by {
        assert(t[i + 5] == fm[i]);
        assert(b[i + 5] == t[i + 5] as u8);
    }
    assert forall|i: int| 0 <= i < 2 implies bd[i] == #[trigger] fd[i] as u8 by {
        assert(t[i + 8] == fd[i]);
        assert(b[i + 8] == t[i + 8] as u8);
    }
    crate::text::lemma_fixed_dec_reads(d.year as nat, 4, by);
    crate::text::lemma_fixed_dec_reads(d.month as nat, 2, bm);
    crate::text::lemma_fixed_dec_reads(d.day as nat, 2, bd);
    assert(t[4] == '-' && t[7] == '-');
    assert(b[4] == t[4] as u8 && b[7] == t[7] as u8);
}

/// Only `YYYY-MM-DD` text parses: a text that parses is the ISO text of
/// the date it gives.
pub proof fn law_parsed_text_is_iso(raw: Seq<char>)
    ensures
        parse_iso_spec(encode_utf8(raw)) matches Ok(e) ==> iso_text(e) == raw,
{
    let b = encode_utf8(raw);
    if parse_iso_spec(b) is Ok {
        let e = parse_iso_spec(b)->Ok_0;
        let by = b.subrange(0, 4);
        let bm = b.subrange(5, 7);
        let bd = b.subrange(8, 10);
        crate::text::lemma_digit_field_bound(by);
        crate::text::lemma_digit_field_bound(bm);
        crate::text::lemma_digit_field_bound(bd);
        crate::text::lemma_digits_fixed(by);
        crate::text::lemma_digits_fixed(bm);
        crate::text::lemma_digits_fixed(bd);
        assert(e.year as nat == digits_value(by));
        assert(e.month as nat == digits_value(bm));
        assert(e.day as nat == digits_value(bd));
        lemma_iso_text_fields(e);
        crate::text::lemma_fixed_dec_len(e.year as nat, 4);
        crate::text::lemma_fixed_dec_len(e.month as nat, 2);
        crate::text::lemma_fixed_dec_len(e.day as nat, 2);
        let t = iso_text(e);
        is_ascii_chars_encode_utf8(t);
        let bt = encode_utf8(t);
        assert forall|i: int| 0 <= i < 10 implies #[trigger] bt[i] == b[i] by {
            assert(bt[i] == t[i] as u8);
            if i < 4 {
                assert(t[i] == fixed_dec(e.year as nat, 4)[i]);
                assert(by[i] == b[i]);
            } else if i == 4 || i == 7 {
            } else if i < 7 {
                assert(t[i] == fixed_dec(e.month as nat, 2)[i - 5]);
                assert(bm[i - 5] == b[i]);
            } else {
                assert(t[i] == fixed_dec(e.day as nat, 2)[i - 8]);
                assert(bd[i - 8] == b[i]);
            }
        }
        assert(bt =~= b);
        encode_utf8_decode_utf8(raw);
        encode_utf8_decode_utf8(t);
    }
}

/// The error carries exactly this invariant message.
pub open spec fn err_says(r: AppError, msg: Seq<char>) -> bool {
    r is Invariant && r->Invariant_0@ == msg
}

impl CivilDate {
    /// `YYYY-MM-DD`.
    pub fn to_iso(self) -> (s: String)
        ensures
            s@ == iso_text(self),
    {
        let mut s = String::new();
        push_padded_int(&mut s, self.year as i64, 4);
        push_char(&mut s, '-');
        push_padded(&mut s, self.month as u64, 2);
        push_char(&mut s, '-');
        push_padded(&mut s, self.day as u64, 2);
        s
    }

    /// Compact `YYYYMMDD` number used in dated texts.
    pub fn to_yyyymmdd(self) -> (n: i32)
        requires
            i32::MIN <= self.year * 10_000,
            self.year * 10_000 + self.month * 100 + self.day <= i32::MAX,
        ensures
            n == self.year * 10_000 + self.month * 100 + self.day,
    {
        self.year * 10_000 + (self.month as i32) * 100 + (self.day as i32)
    }

    /// Parses `YYYY-MM-DD` (days up to 31 in any month are accepted).
    pub fn parse_iso(raw: &str) -> (r: Result<CivilDate, AppError>)
        ensures
            match parse_iso_spec(raw.spec_bytes()) {
                Ok(d) => r == Ok::<CivilDate, AppError>(d),
                Err(msg) => r is Err && err_says(r->Err_0, msg),
            },
    {
        let b = raw.as_bytes();
        if b.len() != 10 || b[4] != 45 || b[7] != 45 {
            return Err(AppError::rule("date must be YYYY-MM-DD"));
        }
        let year = match digit_field_exec(&b[0..4]) {
            Some(y) => y,
            None => return Err(AppError::rule("invalid year")),
        };
        let month = match digit_field_exec(&b[5..7]) {
            Some(m) => m,
            None => return Err(AppError::rule("invalid month")),
        };
        let day = match digit_field_exec(&b[8..10]) {
            Some(d) => d,
            None => return Err(AppError::rule("invalid day")),
        };
        if month < 1 || month > 12 || day < 1 || day > 31 {
            return Err(AppError::rule("invalid calendar date"));
        }
        proof {
            crate::text::lemma_digit_field_bound(b@.subrange(0, 4));
        }
        let year = year as i32;
        let month = month as u8;
        let day = day as u8;
        Ok(CivilDate { year, month, day })
    }
}

impl WeekWhich {
    /// Reads the IPC `which` field.
    pub fn parse(raw: &str) -> (r: Result<WeekWhich, AppError>)
        ensures
            raw@ == "this"@ ==> r == Ok::<WeekWhich, AppError>(WeekWhich::This),
            raw@ == "next"@ ==> r == Ok::<WeekWhich, AppError>(WeekWhich::Next),
            raw@ != "this"@ && raw@ != "next"@ ==> r is Err && err_says(
                r->Err_0,
                "which must be this or next"@,
            ),
    {
        proof {
            reveal_strlit("this");
            reveal_strlit("next");
            assert("next"@[0] != "this"@[0]);
        }
        if str_eq(raw, "this") {
            Ok(WeekWhich::This)
        } else if str_eq(raw, "next") {
            Ok(WeekWhich::Next)
        } else {
            Err(AppError::rule("which must be this or next"))
        }
    }
}

/// Seconds since the Unix epoch on the system clock (zero before the
/// epoch). Nothing is promised of the value.
#[verifier::external_body]
pub(crate) fn unix_seconds_now() -> u64 {
    std::time::SystemTime::now().duration_since(std::time::UNIX_EPOCH).unwrap_or_default().as_secs()
}

/// The current UTC civil date (UTC is close enough for hall PCs).
pub fn today() -> (d: CivilDate)
    ensures
        valid_date(d),
{
    let secs = unix_seconds_now();
    let days = secs / 86_400;
    let z: i32 = if days > 2_000_000_000 {
        2_000_000_000
    } else {
        days as i32
    };
    civil_from_unix_days(z)
}

/// Day number of the Monday of the requested week.
pub open spec fn monday_for_spec(which: WeekWhich, today: CivilDate) -> int {
    let z = unix_days_spec(today);
    let this = z - (weekday_spec(z) - 1);
    match which {
        WeekWhich::This => this,
        WeekWhich::Next => this + 7,
    }
}

/// Day number of the Monday of the week containing `today`.
fn monday_number(today: CivilDate) -> (m: i32)
    requires
        in_range(today),
    ensures
        m == unix_days_spec(today) - (weekday_spec(unix_days_spec(today)) - 1),
        weekday_spec(m as int) == 1,
        -1_900_000_006 <= m <= 1_900_000_000,
{
    let z = crate::calendar::unix_days(today);
    let iso = crate::calendar::iso_weekday(z);
    z - (iso as i32 - 1)
}

/// Resolves this/next week to its Monday.
pub fn monday_for(which: WeekWhich, today: CivilDate) -> (r: CivilDate)
    requires
        in_range(today),
    ensures
        valid_date(r),
        unix_days_spec(r) == monday_for_spec(which, today),
        weekday_spec(unix_days_spec(r)) == 1,
{
    let m = monday_number(today);
    proof {
        crate::calendar::law_add_days_compose(m as int, 0, 7);
    }
    match which {
        WeekWhich::This => civil_from_unix_days(m),
        WeekWhich::Next => civil_from_unix_days(m + 7),
    }
}

/// `YYYYMM` of the month that contains `date`.
pub fn issue_yyyymm(date: CivilDate) -> (s: String)
    ensures
        s@ == issue_text(date.year as int, date.month as nat),
{
    let mut s = String::new();
    push_padded_int(&mut s, date.year as i64, 4);
    push_padded(&mut s, date.month as u64, 2);
    s
}

/// Previous calendar month as `YYYYMM`.
pub fn previous_month_issue(issue: &str) -> (r: Result<String, AppError>)
    requires
        issue.spec_bytes().len() == 6 ==> vstd::utf8::is_char_boundary(issue.spec_bytes(), 4),
    ensures
        match previous_month_spec(issue.spec_bytes()) {
            Ok(s) => r is Ok && r->Ok_0@ == s,
            Err(msg) => r is Err && err_says(r->Err_0, msg),
        },
{
    let b = issue.as_bytes();
    if b.len() != 6 {
        return Err(AppError::rule("issue must be YYYYMM"));
    }
    let year = match digit_field_exec(&b[0..4]) {
        Some(y) => y,
        None => return Err(AppError::rule("invalid issue year")),
    };
    let month = match digit_field_exec(&b[4..6]) {
        Some(m) => m,
        None => return Err(AppError::rule("invalid issue month")),
    };
    if month < 1 || month > 12 {
        return Err(AppError::rule("invalid issue month"));
    }
    proof {
        crate::text::lemma_digit_field_bound(b@.subrange(0, 4));
    }
    let mut s = String::new();
    if month == 1 {
        push_padded_int(&mut s, year as i64 - 1, 4);
        push_padded(&mut s, 12, 2);
    } else {
        push_padded_int(&mut s, year as i64, 4);
        push_padded(&mut s, (month - 1) as u64, 2);
    }
    Ok(s)
}

/// Issues to try for the midweek workbook: the Monday's month, then (when
/// the month reads back as a `YYYYMM` issue) the previous month.
pub open spec fn mwb_candidates_spec(monday: CivilDate) -> Seq<Seq<char>> {
    let first = issue_text(monday.year as int, monday.month as nat);
    if -999 <= monday.year <= 9999 && 1 <= monday.month <= 12 {
        let prev = if monday.month == 1 {
            issue_text(monday.year - 1, 12)
        } else {
            issue_text(monday.year as int, (monday.month - 1) as nat)
        };
        seq![first, prev]
    } else {
        seq![first]
    }
}

/// Views of a list of strings.
pub open spec fn strings_view(v: Seq<String>) -> Seq<Seq<char>> {
    v.map_values(|s: String| s@)
}

/// `mwb` is bimonthly: try the Monday's month, then the previous month.
pub fn mwb_issue_candidates(monday: CivilDate) -> (r: Vec<String>)
    ensures
        strings_view(r@) == mwb_candidates_spec(monday),
{
    let first = issue_yyyymm(monday);
    let mut out: Vec<String> = Vec::new();
    out.push(first);
    if -999 <= monday.year && monday.year <= 9999 && 1 <= monday.month && monday.month <= 12 {
        let mut s = String::new();
        if monday.month == 1 {
            push_padded_int(&mut s, monday.year as i64 - 1, 4);
            push_padded(&mut s, 12, 2);
        } else {
            push_padded_int(&mut s, monday.year as i64, 4);
            push_padded(&mut s, (monday.month - 1) as u64, 2);
        }
        out.push(s);
    }
    assert(strings_view(out@) =~= mwb_candidates_spec(monday));
    out
}

/// Watchtower study issue is monthly.
pub fn w_issue(monday: CivilDate) -> (s: String)
    ensures
        s@ == issue_text(monday.year as int, monday.month as nat),
{
    issue_yyyymm(monday)
}

/// First six characters of a tag's decimal text (or all of it when shorter).
pub open spec fn normalized_tag(tag: i64) -> Seq<char> {
    let t = int_text(tag as int);
    if t.len() >= 6 {
        t.take(6)
    } else {
        t
    }
}

/// Normalises `20260900` / `202609` to `YYYYMM`.
pub fn normalize_issue_tag(tag: i64) -> (s: String)
    ensures
        s@ == normalized_tag(tag),
{
    let mut raw = String::new();
    push_padded_int(&mut raw, tag, 0);
    let cs = crate::text::chars_of(raw.as_str());
    if cs.len() >= 6 {
        let head = &cs.as_slice()[0..6];
        assert(head@ =~= cs@.take(6));
        crate::text::string_from_chars(head)
    } else {
        raw
    }
}

/// Path segments of `week/{langwritten}/{yyyy-mm-dd}` under the media root.
pub fn week_dir(langwritten: &str, monday: CivilDate) -> (r: Vec<String>)
    ensures
        strings_view(r@) == seq!["week"@, langwritten@, iso_text(monday)],
{
    let mut r: Vec<String> = Vec::new();
    r.push(owned("week"));
    r.push(owned(langwritten));
    r.push(monday.to_iso());
    assert(strings_view(r@) =~= seq!["week"@, langwritten@, iso_text(monday)]);
    r
}

/// Whether a catalog row should be downloaded into `week/` (not the hymnal).
pub open spec fn fetch_to_week_spec(item: MediaItemV) -> bool {
    (item.status == MediaStatus::Pending || item.status == MediaStatus::Failed) && item.media_kind
        != MediaKind::Song && item.media_ref is Catalog
}

/// True when this catalog row should be downloaded into `week/` (not hymnal).
pub fn should_fetch_to_week(item: &MediaItem) -> (b: bool)
    ensures
        b == fetch_to_week_spec(item@),
{
    let status_ok = match item.status {
        MediaStatus::Pending | MediaStatus::Failed => true,
        _ => false,
    };
    let kind_ok = match item.media_kind {
        MediaKind::Song => false,
        _ => true,
    };
    let ref_ok = match &item.media_ref {
        MediaRef::Catalog { .. } => true,
        _ => false,
    };
    status_ok && kind_ok && ref_ok
}

/// Publication symbol of a meeting kind.
pub open spec fn pub_symbol_of(kind: MeetingKind) -> Seq<char> {
    match kind {
        MeetingKind::Midweek => "mwb"@,
        MeetingKind::Weekend => "w"@,
    }
}

/// The empty programme for a Monday.
pub open spec fn empty_week_spec(monday: CivilDate, kind: MeetingKind, langwritten: Seq<char>) -> MeetingWeekV {
    MeetingWeekV {
        monday: iso_text(monday),
        kind,
        title: Seq::empty(),
        langwritten,
        pub_symbol: pub_symbol_of(kind),
        issue: issue_text(monday.year as int, monday.month as nat),
        parts: Seq::empty(),
        media: Seq::empty(),
    }
}

/// Publication symbol of a meeting kind.
pub fn pub_symbol_for(kind: MeetingKind) -> (s: String)
    ensures
        s@ == pub_symbol_of(kind),
{
    match kind {
        MeetingKind::Midweek => owned("mwb"),
        MeetingKind::Weekend => owned("w"),
    }
}

impl MeetingWeek {
    /// Empty week used before the first successful fetch.
    pub fn empty(monday: CivilDate, kind: MeetingKind, langwritten: &str) -> (w: MeetingWeek)
        ensures
            w@ == empty_week_spec(monday, kind, langwritten@),
    {
        let issue = match kind {
            MeetingKind::Midweek => {
                let mut c = mwb_issue_candidates(monday);
                assert(c@.len() == strings_view(c@).len());
                assert(strings_view(c@)[0] == c@[0]@);
                let first = c.remove(0);
                first
            },
            MeetingKind::Weekend => w_issue(monday),
        };
        let w = MeetingWeek {
            monday: monday.to_iso(),
            kind,
            title: String::new(),
            langwritten: owned(langwritten),
            pub_symbol: pub_symbol_for(kind),
            issue,
            parts: Vec::new(),
            media: Vec::new(),
        };
        assert(w@.parts =~= Seq::<MeetingPartV>::empty());
        assert(w@.media =~= Seq::<MediaItemV>::empty());
        w
    }
}

/// Next week's Monday is seven days after this week's, and both are Mondays.
pub proof fn law_next_week_is_seven_days_later(today: CivilDate)
    ensures
        monday_for_spec(WeekWhich::Next, today) == monday_for_spec(WeekWhich::This, today) + 7,
        weekday_spec(monday_for_spec(WeekWhich::This, today)) == 1,
        weekday_spec(monday_for_spec(WeekWhich::Next, today)) == 1,
{
    let z = unix_days_spec(today);
    crate::calendar::law_monday_within_week(z);
    crate::calendar::law_add_days_compose(monday_for_spec(WeekWhich::This, today), 0, 7);
}

} // verus!
