//! Displays and where the audience and speaker surfaces go.

use vstd::prelude::*;
use vstd::string::*;

use crate::error::AppError;
use crate::text::{dec, int_text, owned, push_char, push_padded, push_padded_int, push_str, str_eq};
use crate::week::{opt_view, strings_view};

verus! {

/// A physical display as shown in Settings.
#[derive(Debug, Clone)]
pub struct MonitorDto {
    pub id: String,
    pub name: String,
    pub width: u32,
    pub height: u32,
    pub is_primary: bool,
    pub position_x: i32,
    pub position_y: i32,
}

/// Per-profile assignment of audience/speaker surfaces.
#[derive(Debug, Clone)]
pub struct SurfacesSetting {
    pub audience_monitor_id: Option<String>,
    pub speaker_monitor_id: Option<String>,
    pub use_speaker: bool,
}

impl Default for SurfacesSetting {
    fn default() -> (r: SurfacesSetting)
        ensures
            r.audience_monitor_id is None,
            r.speaker_monitor_id is None,
            !r.use_speaker,
    {
        SurfacesSetting { audience_monitor_id: None, speaker_monitor_id: None, use_speaker: false }
    }
}

/// Where the speaker surface should live after applying a profile's setting.
#[derive(Debug, Clone, PartialEq, Eq)]
pub enum SpeakerPlacement {
    /// Speaker off: no speaker window.
    Hidden,
    /// Speaker on without a usable dedicated monitor: decorated 960x540 preview.
    Preview,
    /// Speaker fullscreen on this monitor id (never the audience monitor).
    Monitor(String),
}

/// A [`SpeakerPlacement`] with its id as characters.
pub enum PlacementV {
    Hidden,
    Preview,
    Monitor(Seq<char>),
}

impl View for SpeakerPlacement {
    type V = PlacementV;

    open spec fn view(&self) -> PlacementV {
        match self {
            SpeakerPlacement::Hidden => PlacementV::Hidden,
            SpeakerPlacement::Preview => PlacementV::Preview,
            SpeakerPlacement::Monitor(id) => PlacementV::Monitor(id@),
        }
    }
}

/// Speaker surface mode published to the HUD.
#[derive(Debug, Clone, Copy, PartialEq, Eq, Structural)]
pub enum SpeakerMode {
    Hidden,
    Preview,
    Fullscreen,
}

impl Default for SpeakerMode {
    fn default() -> (r: SpeakerMode)
        ensures
            r == SpeakerMode::Hidden,
    {
        SpeakerMode::Hidden
    }
}

/// The speaker mode a placement shows.
pub fn speaker_mode_for(placement: &SpeakerPlacement) -> (m: SpeakerMode)
    ensures
        m == (match placement@ {
            PlacementV::Hidden => SpeakerMode::Hidden,
            PlacementV::Preview => SpeakerMode::Preview,
            PlacementV::Monitor(_) => SpeakerMode::Fullscreen,
        }),
{
    match placement {
        SpeakerPlacement::Hidden => SpeakerMode::Hidden,
        SpeakerPlacement::Preview => SpeakerMode::Preview,
        SpeakerPlacement::Monitor(_) => SpeakerMode::Fullscreen,
    }
}

/// Placement of the speaker surface and whether the saved monitor is
/// missing: hidden when the speaker is off; a preview when no monitor is
/// saved; a preview flagged missing when the saved monitor is unknown or is
/// the audience one; else fullscreen on it.
pub open spec fn placement_spec(
    audience: Option<Seq<char>>,
    speaker: Option<Seq<char>>,
    use_speaker: bool,
    known: Seq<Seq<char>>,
) -> (PlacementV, bool) {
    if !use_speaker {
        (PlacementV::Hidden, false)
    } else {
        match speaker {
            None => (PlacementV::Preview, false),
            Some(id) => if !known.contains(id) || audience == Some(id) {
                (PlacementV::Preview, true)
            } else {
                (PlacementV::Monitor(id), false)
            },
        }
    }
}

/// Whether `id` is one of `known`.
fn known_id(known: &Vec<String>, id: &str) -> (b: bool)
    ensures
        b == strings_view(known@).contains(id@),
{
    let mut i: usize = 0;
    while i < known.len()
        invariant
            i <= known@.len(),
            forall|k: int| 0 <= k < i ==> known@[k]@ != id@,
        decreases known@.len() - i,
    {
        if str_eq(known[i].as_str(), id) {
            assert(strings_view(known@)[i as int] == id@);
            return true;
        }
        i = i + 1;
    }
    assert forall|k: int| 0 <= k < known@.len() implies strings_view(known@)[k] != id@ by {}
    false
}

/// Maps stored surfaces to a speaker placement. The flag is true when the
/// saved speaker id is absent or equal to the audience id; callers then
/// report `MonitorMissing`.
pub fn speaker_placement(setting: &SurfacesSetting, known_monitor_ids: &Vec<String>) -> (r: (SpeakerPlacement, bool))
    ensures
        (r.0@, r.1) == placement_spec(
            opt_view(setting.audience_monitor_id),
            opt_view(setting.speaker_monitor_id),
            setting.use_speaker,
            strings_view(known_monitor_ids@),
        ),
        r.0@ matches PlacementV::Monitor(id) ==> strings_view(known_monitor_ids@).contains(id)
            && opt_view(setting.audience_monitor_id) != Some(id),
{
    if !setting.use_speaker {
        return (SpeakerPlacement::Hidden, false);
    }
    match &setting.speaker_monitor_id {
        None => (SpeakerPlacement::Preview, false),
        Some(id) => {
            let found = known_id(known_monitor_ids, id.as_str());
            let same_as_audience = match &setting.audience_monitor_id {
                Some(a) => str_eq(a.as_str(), id.as_str()),
                None => false,
            };
            if !found || same_as_audience {
                (SpeakerPlacement::Preview, true)
            } else {
                (SpeakerPlacement::Monitor(id.clone()), false)
            }
        },
    }
}

/// A [`MonitorDto`] with its strings as characters.
pub struct MonitorV {
    pub id: Seq<char>,
    pub name: Seq<char>,
    pub width: u32,
    pub height: u32,
    pub is_primary: bool,
    pub position_x: i32,
    pub position_y: i32,
}

impl View for MonitorDto {
    type V = MonitorV;

    open spec fn view(&self) -> MonitorV {
        MonitorV {
            id: self.id@,
            name: self.name@,
            width: self.width,
            height: self.height,
            is_primary: self.is_primary,
            position_x: self.position_x,
            position_y: self.position_y,
        }
    }
}

/// Views of a list of monitors.
pub open spec fn monitors_view(v: Seq<MonitorDto>) -> Seq<MonitorV> {
    v.map_values(|m: MonitorDto| m@)
}

/// The view of an optional borrowed text.
pub open spec fn opt_str(s: Option<&str>) -> Option<Seq<char>> {
    match s {
        Some(t) => Some(t@),
        None => None,
    }
}

/// The name a display shows: its own, else `Display`.
pub open spec fn display_name(name: Option<Seq<char>>) -> Seq<char> {
    match name {
        Some(n) => n,
        None => "Display"@,
    }
}

/// The stable id of a display: `{name}@{x},{y}`.
pub open spec fn monitor_id_spec(name: Option<Seq<char>>, x: i32, y: i32) -> Seq<char> {
    display_name(name) + seq!['@'] + int_text(x as int) + seq![','] + int_text(y as int)
}

fn display_name_exec(name: Option<&str>) -> (s: String)
    ensures
        s@ == display_name(opt_str(name)),
{
    match name {
        Some(n) => owned(n),
        None => owned("Display"),
    }
}

/// The id of a display from its name and position.
pub fn monitor_id(name: Option<&str>, x: i32, y: i32) -> (s: String)
    ensures
        s@ == monitor_id_spec(opt_str(name), x, y),
{
    let mut s = display_name_exec(name);
    push_char(&mut s, '@');
    push_padded_int(&mut s, x as i64, 0);
    push_char(&mut s, ',');
    push_padded_int(&mut s, y as i64, 0);
    s
}

/// What Settings lists for a display; it is the primary one when its id is
/// the id of the primary display.
pub fn monitor_dto(
    name: Option<&str>,
    width: u32,
    height: u32,
    x: i32,
    y: i32,
    primary_id: Option<&str>,
) -> (m: MonitorDto)
    ensures
        m@ == (MonitorV {
            id: monitor_id_spec(opt_str(name), x, y),
            name: display_name(opt_str(name)),
            width,
            height,
            is_primary: opt_str(primary_id) == Some(monitor_id_spec(opt_str(name), x, y)),
            position_x: x,
            position_y: y,
        }),
{
    let id = monitor_id(name, x, y);
    let is_primary = match primary_id {
        Some(p) => str_eq(p, id.as_str()),
        None => false,
    };
    MonitorDto { id, name: display_name_exec(name), width, height, is_primary, position_x: x, position_y: y }
}

/// Id of the first display from `i` on that is not the primary one.
pub open spec fn first_secondary_from(ms: Seq<MonitorV>, i: int) -> Option<Seq<char>>
    decreases ms.len() - i,
{
    if i < 0 || i >= ms.len() {
        None
    } else if !ms[i].is_primary {
        Some(ms[i].id)
    } else {
        first_secondary_from(ms, i + 1)
    }
}

/// The display the audience surface goes fullscreen on (`None`: a floating
/// preview). A requested display is used while it is attached; with none
/// requested and two or more displays, the first one that is not primary.
pub open spec fn audience_target_spec(requested: Option<Seq<char>>, ms: Seq<MonitorV>) -> Option<Seq<char>> {
    match requested {
        Some(id) => if exists|i: int| 0 <= i < ms.len() && #[trigger] ms[i].id == id {
            Some(id)
        } else {
            None
        },
        None => if ms.len() >= 2 {
            first_secondary_from(ms, 0)
        } else {
            None
        },
    }
}

/// Chooses the display for the audience surface.
pub fn audience_target(requested: Option<&str>, monitors: &Vec<MonitorDto>) -> (r: Option<String>)
    ensures
        opt_view(r) == audience_target_spec(opt_str(requested), monitors_view(monitors@)),
{
    let ghost ms = monitors_view(monitors@);
    match requested {
        Some(id) => {
            let mut i: usize = 0;
            while i < monitors.len()
                invariant
                    i <= monitors@.len(),
                    ms == monitors_view(monitors@),
                    opt_str(requested) == Some(id@),
                    forall|k: int| 0 <= k < i ==> ms[k].id != id@,
                decreases monitors@.len() - i,
            {
                if str_eq(monitors[i].id.as_str(), id) {
                    assert(ms.len() == monitors@.len());
                    assert(ms[i as int] == monitors@[i as int]@);
                    assert(ms[i as int].id == id@);
                    return Some(owned(id));
                }
                i = i + 1;
            }
            assert(ms.len() == monitors@.len());
            None
        },
        None => {
            if monitors.len() < 2 {
                return None;
            }
            let mut i: usize = 0;
            while i < monitors.len()
                invariant
                    i <= monitors@.len(),
                    ms == monitors_view(monitors@),
                    requested is None,
                    monitors@.len() >= 2,
                    first_secondary_from(ms, 0) == first_secondary_from(ms, i as int),
                decreases monitors@.len() - i,
            {
                assert(ms[i as int] == monitors@[i as int]@);
                if !monitors[i].is_primary {
                    return Some(monitors[i].id.clone());
                }
                i = i + 1;
            }
            assert(ms.len() == monitors@.len());
            None
        },
    }
}

/// Value of a `u32` read back as an `i32` (two's complement, as `as` does).
pub open spec fn as_signed(v: u32) -> int {
    if v <= 0x7fff_ffff {
        v as int
    } else {
        v as int - 0x1_0000_0000
    }
}

/// Coordinate that centres `extent` pixels on a display edge at `origin`
/// that is `size` pixels long (never before the origin).
pub open spec fn centred(origin: i32, size: u32, extent: int) -> int {
    let room = as_signed(size) - extent;
    origin + (if room > 0 { room } else { 0 }) / 2
}

/// Width and height of the window that names a display.
pub const IDENTIFY_WIDTH: i32 = 480;

pub const IDENTIFY_HEIGHT: i32 = 240;

/// Where and how the naming window of one display is shown.
pub struct IdentifyWindow {
    pub label: String,
    pub url_hash: String,
    pub title: String,
    pub x: i32,
    pub y: i32,
}

/// Whether a byte is left as it is in a query value.
pub open spec fn unreserved(b: u8) -> bool {
    (65 <= b <= 90) || (97 <= b <= 122) || (48 <= b <= 57) || b == 45 || b == 46 || b == 95
}

/// Upper-case hexadecimal digit of `n` in `0..16`.
pub open spec fn hex_upper(n: int) -> char {
    if n < 10 {
        (48 + n) as char
    } else {
        (55 + n) as char
    }
}

/// How one byte of a query value is written.
pub open spec fn query_piece(b: u8) -> Seq<char> {
    if unreserved(b) {
        seq![b as char]
    } else if b == 32 {
        seq!['%', '2', '0']
    } else {
        seq!['%', hex_upper(b as int / 16), hex_upper(b as int % 16)]
    }
}

/// A query value percent-encoded byte by byte.
pub open spec fn query_text(bytes: Seq<u8>) -> Seq<char>
    decreases bytes.len(),
{
    if bytes.len() == 0 {
        Seq::empty()
    } else {
        query_text(bytes.drop_last()) + query_piece(bytes.last())
    }
}

fn hex_upper_exec(n: u8) -> (c: char)
    requires
        n < 16,
    ensures
        c == hex_upper(n as int),
{
    if n < 10 {
        (48 + n) as char
    } else {
        (55 + n) as char
    }
}

/// Percent-encodes the UTF-8 bytes of a text for a URL query: letters,
/// digits, `-`, `.` and `_` stay, a space is `%20`, any other byte `%XX`.
pub fn encode_query(value: &str) -> (s: String)
    ensures
        s@ == query_text(value.spec_bytes()),
{
    let bytes = value.as_bytes();
    let mut out = String::new();
    let mut i: usize = 0;
    while i < bytes.len()
        invariant
            i <= bytes@.len(),
            bytes@ == value.spec_bytes(),
            out@ == query_text(bytes@.take(i as int)),
        decreases bytes@.len() - i,
    {
        let b = bytes[i];
        let ghost before = out@;
        if (65 <= b && b <= 90) || (97 <= b && b <= 122) || (48 <= b && b <= 57) || b == 45 || b == 46 || b == 95 {
            push_char(&mut out, b as char);
        } else if b == 32 {
            push_char(&mut out, '%');
            push_char(&mut out, '2');
            push_char(&mut out, '0');
        } else {
            push_char(&mut out, '%');
            push_char(&mut out, hex_upper_exec(b / 16));
            push_char(&mut out, hex_upper_exec(b % 16));
        }
        assert(out@ =~= before + query_piece(b));
        assert(bytes@.take(i + 1).drop_last() =~= bytes@.take(i as int));
        i = i + 1;
    }
    assert(bytes@.take(bytes@.len() as int) =~= bytes@);
    out
}

/// The naming window of display number `index`: label `identify-{index}`,
/// page `#/identify?label={name}&size={w}x{h}`, title `{name} ({w}×{h})`,
/// centred on the display.
pub open spec fn identify_window_spec(index: nat, name: Option<Seq<char>>, x: i32, y: i32, width: u32, height: u32) -> (Seq<char>, Seq<char>, Seq<char>, int, int) {
    let shown = display_name(name);
    (
        "identify-"@ + dec(index),
        "#/identify?label="@ + query_text(vstd::utf8::encode_utf8(shown)) + "&size="@ + dec(width as nat) + seq!['x'] + dec(height as nat),
        shown + " ("@ + dec(width as nat) + "×"@ + dec(height as nat) + seq![')'],
        centred(x, width, IDENTIFY_WIDTH as int),
        centred(y, height, IDENTIFY_HEIGHT as int),
    )
}

fn centred_exec(origin: i32, size: u32, extent: i32) -> (r: i32)
    requires
        0 < extent,
        i32::MIN <= centred(origin, size, extent as int) <= i32::MAX,
    ensures
        r == centred(origin, size, extent as int),
{
    let signed: i64 = if size <= 0x7fff_ffff {
        size as i64
    } else {
        size as i64 - 0x1_0000_0000
    };
    let room: i64 = signed - extent as i64;
    let half: i64 = if room > 0 {
        room / 2
    } else {
        0
    };
    (origin as i64 + half) as i32
}

/// Plans the naming window of one display.
pub fn identify_window(index: usize, name: Option<&str>, x: i32, y: i32, width: u32, height: u32) -> (w: IdentifyWindow)
    requires
        i32::MIN <= as_signed(width) - IDENTIFY_WIDTH,
        i32::MIN <= as_signed(height) - IDENTIFY_HEIGHT,
        centred(x, width, IDENTIFY_WIDTH as int) <= i32::MAX,
        centred(y, height, IDENTIFY_HEIGHT as int) <= i32::MAX,
    ensures
        identify_window_spec(index as nat, opt_str(name), x, y, width, height) == (w.label@, w.url_hash@, w.title@, w.x as int, w.y as int),
{
    let shown = display_name_exec(name);
    let mut label = owned("identify-");
    push_padded(&mut label, index as u64, 0);
    let mut url_hash = owned("#/identify?label=");
    let q = encode_query(shown.as_str());
    push_str(&mut url_hash, q.as_str());
    push_str(&mut url_hash, "&size=");
    push_padded(&mut url_hash, width as u64, 0);
    push_char(&mut url_hash, 'x');
    push_padded(&mut url_hash, height as u64, 0);
    let mut title = shown.clone();
    push_str(&mut title, " (");
    push_padded(&mut title, width as u64, 0);
    push_str(&mut title, "×");
    push_padded(&mut title, height as u64, 0);
    push_char(&mut title, ')');
    proof {
        crate::text::lemma_pad_dec_zero(index as nat);
        crate::text::lemma_pad_dec_zero(width as nat);
        crate::text::lemma_pad_dec_zero(height as nat);
    }
    let wx = centred_exec(x, width, IDENTIFY_WIDTH);
    let wy = centred_exec(y, height, IDENTIFY_HEIGHT);
    IdentifyWindow { label, url_hash, title, x: wx, y: wy }
}

/// Window/monitor adapter. The desktop shell implements it.
pub trait PlatformSurface {
    /// Enumerates attached displays.
    fn list_monitors(&self) -> Result<Vec<MonitorDto>, AppError>;

    /// Places or previews the audience surface. `None` means floating preview on a single display.
    fn place_audience(&self, monitor_id: Option<&str>) -> Result<(), AppError>;

    /// Places, previews, or hides the speaker surface.
    fn place_speaker(&self, placement: &SpeakerPlacement) -> Result<(), AppError>;

    /// Flashes name and resolution on every display. Moves nothing.
    fn identify_monitors(&self) -> Result<(), AppError>;
}

} // verus!
