//! System and user event templates for the meeting timer.
//!
//! System rows are compiled in; user rows are stored per profile. Applying
//! a template never decrypts publication content, never opens media, and
//! never puts song rows on the timer.

use vstd::prelude::*;

use crate::error::AppError;
use crate::text::{
    ascii_lower, ascii_lower_vec, chars_of, concat2, contains_seq, contains_vec, dec, dec_chars,
    owned, push_char, push_str, starts_with_seq, str_eq, str_eq_ignore_ascii_case,
    str_starts_with, trim, trim_seq, utf8_len, utf8_len_within, eq_ignore_ascii_case_seq,
};
use crate::week::{
    copy_items, copy_parts, items_view, parts_view, MediaItem, MediaItemV, MeetingKind,
    MeetingPart, MeetingPartV, MeetingWeek, MeetingWeekV,
};

verus! {

/// Where a template came from.
#[derive(Debug, Clone, Copy, PartialEq, Eq, Structural)]
pub enum TemplateSource {
    System,
    User,
}

/// Which meeting skeleton a template is for. `Event` is a free-form user programme.
#[derive(Debug, Clone, Copy, PartialEq, Eq, Structural)]
pub enum TemplateKind {
    Midweek,
    Weekend,
    Event,
}

impl TemplateKind {
    /// Reads the IPC `kind` field.
    pub fn parse(raw: &str) -> (r: Result<TemplateKind, AppError>)
        ensures
            raw@ == "midweek"@ ==> r == Ok::<TemplateKind, AppError>(TemplateKind::Midweek),
            raw@ == "weekend"@ ==> r == Ok::<TemplateKind, AppError>(TemplateKind::Weekend),
            raw@ == "event"@ ==> r == Ok::<TemplateKind, AppError>(TemplateKind::Event),
            raw@ != "midweek"@ && raw@ != "weekend"@ && raw@ != "event"@ ==> r is Err
                && crate::week::err_says(
                r->Err_0,
                "template kind must be midweek, weekend, or event"@,
            ),
    {
        proof {
            reveal_strlit("midweek");
            reveal_strlit("weekend");
            reveal_strlit("event");
            assert("midweek"@[0] != "weekend"@[0]);
            assert("midweek"@.len() != "event"@.len());
            assert("weekend"@.len() != "event"@.len());
        }
        if str_eq(raw, "midweek") {
            Ok(TemplateKind::Midweek)
        } else if str_eq(raw, "weekend") {
            Ok(TemplateKind::Weekend)
        } else if str_eq(raw, "event") {
            Ok(TemplateKind::Event)
        } else {
            Err(AppError::rule("template kind must be midweek, weekend, or event"))
        }
    }
}

/// One saved or built-in programme.
#[derive(Debug, Clone)]
pub struct EventTemplate {
    pub id: String,
    pub name: String,
    pub source: TemplateSource,
    pub kind: TemplateKind,
    pub parts: Vec<MeetingPart>,
}

/// An [`EventTemplate`] with its strings as characters.
pub struct EventTemplateV {
    pub id: Seq<char>,
    pub name: Seq<char>,
    pub source: TemplateSource,
    pub kind: TemplateKind,
    pub parts: Seq<MeetingPartV>,
}

impl View for EventTemplate {
    type V = EventTemplateV;

    open spec fn view(&self) -> EventTemplateV {
        EventTemplateV {
            id: self.id@,
            name: self.name@,
            source: self.source,
            kind: self.kind,
            parts: parts_view(self.parts@),
        }
    }
}

impl EventTemplate {
    /// A copy with the same contents.
    pub fn copy(&self) -> (r: EventTemplate)
        ensures
            r@ == self@,
    {
        EventTemplate {
            id: self.id.clone(),
            name: self.name.clone(),
            source: self.source,
            kind: self.kind,
            parts: copy_parts(&self.parts),
        }
    }
}

/// Built-in midweek template id. User templates use UUIDs.
pub const SYS_MIDWEEK: &'static str = "sys:midweek";

/// Built-in weekend template id.
pub const SYS_WEEKEND: &'static str = "sys:weekend";

/// Built-in circuit-visit midweek template id.
pub const SYS_CIRCUIT_MIDWEEK: &'static str = "sys:circuit-midweek";

/// Built-in circuit-visit weekend template id.
pub const SYS_CIRCUIT_WEEKEND: &'static str = "sys:circuit-weekend";

/// Built-in template ids as characters.
pub open spec fn sys_midweek() -> Seq<char> {
    "sys:midweek"@
}

pub open spec fn sys_weekend() -> Seq<char> {
    "sys:weekend"@
}

pub open spec fn sys_circuit_midweek() -> Seq<char> {
    "sys:circuit-midweek"@
}

pub open spec fn sys_circuit_weekend() -> Seq<char> {
    "sys:circuit-weekend"@
}

/// Row and template titles in one language.
pub struct Labels {
    pub opening_comments: &'static str,
    pub treasures: &'static str,
    pub gems: &'static str,
    pub reading: &'static str,
    pub ayf: &'static str,
    pub living: &'static str,
    pub cbs: &'static str,
    pub review: &'static str,
    pub circuit_review: &'static str,
    pub circuit_intro: &'static str,
    pub service_talk: &'static str,
    pub public_talk: &'static str,
    pub public_talk_co: &'static str,
    pub watchtower: &'static str,
    pub tpl_midweek: &'static str,
    pub tpl_weekend: &'static str,
    pub tpl_circuit_mw: &'static str,
    pub tpl_circuit_we: &'static str,
}

/// Labels as characters.
pub struct LabelsV {
    pub opening_comments: Seq<char>,
    pub treasures: Seq<char>,
    pub gems: Seq<char>,
    pub reading: Seq<char>,
    pub ayf: Seq<char>,
    pub living: Seq<char>,
    pub cbs: Seq<char>,
    pub review: Seq<char>,
    pub circuit_review: Seq<char>,
    pub circuit_intro: Seq<char>,
    pub service_talk: Seq<char>,
    pub public_talk: Seq<char>,
    pub public_talk_co: Seq<char>,
    pub watchtower: Seq<char>,
    pub tpl_midweek: Seq<char>,
    pub tpl_weekend: Seq<char>,
    pub tpl_circuit_mw: Seq<char>,
    pub tpl_circuit_we: Seq<char>,
}

impl View for Labels {
    type V = LabelsV;

    open spec fn view(&self) -> LabelsV {
        LabelsV {
            opening_comments: self.opening_comments@,
            treasures: self.treasures@,
            gems: self.gems@,
            reading: self.reading@,
            ayf: self.ayf@,
            living: self.living@,
            cbs: self.cbs@,
            review: self.review@,
            circuit_review: self.circuit_review@,
            circuit_intro: self.circuit_intro@,
            service_talk: self.service_talk@,
            public_talk: self.public_talk@,
            public_talk_co: self.public_talk_co@,
            watchtower: self.watchtower@,
            tpl_midweek: self.tpl_midweek@,
            tpl_weekend: self.tpl_weekend@,
            tpl_circuit_mw: self.tpl_circuit_mw@,
            tpl_circuit_we: self.tpl_circuit_we@,
        }
    }
}

/// English labels.
pub open spec fn en_labels() -> LabelsV {
    LabelsV {
        opening_comments: "Opening comments"@,
        treasures: "Treasures from God's Word"@,
        gems: "Spiritual Gems"@,
        reading: "Bible Reading"@,
        ayf: "Apply Yourself"@,
        living: "Living as Christians"@,
        cbs: "Congregation Bible Study"@,
        review: "Review / announcements"@,
        circuit_review: "Review, next week, announcements"@,
        circuit_intro: "Introduction of the circuit overseer"@,
        service_talk: "Service talk"@,
        public_talk: "Public talk"@,
        public_talk_co: "Public talk (circuit overseer)"@,
        watchtower: "Watchtower Study"@,
        tpl_midweek: "Midweek"@,
        tpl_weekend: "Weekend"@,
        tpl_circuit_mw: "Circuit visit — midweek"@,
        tpl_circuit_we: "Circuit visit — weekend"@,
    }
}

/// Spanish labels.
pub open spec fn es_labels() -> LabelsV {
    LabelsV {
        opening_comments: "Palabras de introducción"@,
        treasures: "Tesoros de la Biblia"@,
        gems: "Busquemos perlas escondidas"@,
        reading: "Lectura de la Biblia"@,
        ayf: "Asignación"@,
        living: "Nuestra vida cristiana"@,
        cbs: "Estudio bíblico de congregación"@,
        review: "Recapitulación / anuncios"@,
        circuit_review: "Recapitulación, próxima semana, anuncios"@,
        circuit_intro: "Presentación del superintendente"@,
        service_talk: "Discurso de servicio"@,
        public_talk: "Discurso público"@,
        public_talk_co: "Discurso público (superintendente)"@,
        watchtower: "Estudio de La Atalaya"@,
        tpl_midweek: "Entre semana"@,
        tpl_weekend: "Fin de semana"@,
        tpl_circuit_mw: "Visita de circuito — entre semana"@,
        tpl_circuit_we: "Visita de circuito — fin de semana"@,
    }
}

/// Spanish (`S`, any case) or English labels.
pub open spec fn labels_spec(langwritten: Seq<char>) -> LabelsV {
    if eq_ignore_ascii_case_seq(langwritten, "S"@) {
        es_labels()
    } else {
        en_labels()
    }
}

/// Labels for a content language: Spanish for `S`, English otherwise.
pub fn labels_for(langwritten: &str) -> (l: Labels)
    ensures
        l@ == labels_spec(langwritten@),
{
    if str_eq_ignore_ascii_case(langwritten, "S") {
        Labels {
            opening_comments: "Palabras de introducción",
            treasures: "Tesoros de la Biblia",
            gems: "Busquemos perlas escondidas",
            reading: "Lectura de la Biblia",
            ayf: "Asignación",
            living: "Nuestra vida cristiana",
            cbs: "Estudio bíblico de congregación",
            review: "Recapitulación / anuncios",
            circuit_review: "Recapitulación, próxima semana, anuncios",
            circuit_intro: "Presentación del superintendente",
            service_talk: "Discurso de servicio",
            public_talk: "Discurso público",
            public_talk_co: "Discurso público (superintendente)",
            watchtower: "Estudio de La Atalaya",
            tpl_midweek: "Entre semana",
            tpl_weekend: "Fin de semana",
            tpl_circuit_mw: "Visita de circuito — entre semana",
            tpl_circuit_we: "Visita de circuito — fin de semana",
        }
    } else {
        Labels {
            opening_comments: "Opening comments",
            treasures: "Treasures from God's Word",
            gems: "Spiritual Gems",
            reading: "Bible Reading",
            ayf: "Apply Yourself",
            living: "Living as Christians",
            cbs: "Congregation Bible Study",
            review: "Review / announcements",
            circuit_review: "Review, next week, announcements",
            circuit_intro: "Introduction of the circuit overseer",
            service_talk: "Service talk",
            public_talk: "Public talk",
            public_talk_co: "Public talk (circuit overseer)",
            watchtower: "Watchtower Study",
            tpl_midweek: "Midweek",
            tpl_weekend: "Weekend",
            tpl_circuit_mw: "Circuit visit — midweek",
            tpl_circuit_we: "Circuit visit — weekend",
        }
    }
}

/// A timer row with no media.
pub open spec fn part_spec(id: Seq<char>, title: Seq<char>, minutes: u32, tone: Seq<char>) -> MeetingPartV {
    MeetingPartV { id, title, minutes: Some(minutes), tone, items: Seq::empty() }
}

/// A timer row with no media.
pub fn part(id: &str, title: &str, minutes: u32, tone: &str) -> (p: MeetingPart)
    ensures
        p@ == part_spec(id@, title@, minutes, tone@),
{
    let p = MeetingPart {
        id: owned(id),
        title: owned(title),
        minutes: Some(minutes),
        tone: owned(tone),
        items: Vec::new(),
    };
    assert(p@.items =~= Seq::<MediaItemV>::empty());
    p
}

/// `{prefix}:{suffix}`.
pub open spec fn row_id(prefix: Seq<char>, suffix: Seq<char>) -> Seq<char> {
    prefix + ":"@ + suffix
}

/// `{prefix}:{suffix}`.
pub fn make_row_id(prefix: &str, suffix: &str) -> (s: String)
    ensures
        s@ == row_id(prefix@, suffix@),
{
    let mut s = owned(prefix);
    push_str(&mut s, ":");
    push_str(&mut s, suffix);
    s
}

/// `{prefix}:{n}`.
pub fn make_row_id_n(prefix: &str, n: u64) -> (s: String)
    ensures
        s@ == row_id(prefix@, dec(n as nat)),
{
    let mut s = owned(prefix);
    push_str(&mut s, ":");
    let d = dec_chars(n);
    let ds = crate::text::string_from_chars(d.as_slice());
    push_str(&mut s, ds.as_str());
    s
}

/// Title of the `n`-th "apply yourself" row.
pub open spec fn ayf_title_spec(l: LabelsV, n: nat) -> Seq<char> {
    l.ayf + " "@ + dec(n)
}

/// Title of the `n`-th "apply yourself" row.
pub fn ayf_title(labels: &Labels, n: u32) -> (s: String)
    ensures
        s@ == ayf_title_spec(labels@, n as nat),
{
    let mut s = owned(labels.ayf);
    push_char(&mut s, ' ');
    let d = dec_chars(n as u64);
    let ds = crate::text::string_from_chars(d.as_slice());
    push_str(&mut s, ds.as_str());
    proof {
        reveal_strlit(" ");
        assert(" "@ =~= seq![' ']);
    }
    s
}

/// The midweek skeleton.
pub open spec fn midweek_spec(prefix: Seq<char>, l: LabelsV) -> Seq<MeetingPartV> {
    seq![
        part_spec(row_id(prefix, dec(0)), l.opening_comments, 1, "other"@),
        part_spec(row_id(prefix, dec(1)), l.treasures, 10, "treasures"@),
        part_spec(row_id(prefix, dec(2)), l.gems, 10, "treasures"@),
        part_spec(row_id(prefix, dec(3)), l.reading, 4, "treasures"@),
        part_spec(row_id(prefix, dec(4)), ayf_title_spec(l, 1), 3, "ayf"@),
        part_spec(row_id(prefix, dec(5)), ayf_title_spec(l, 2), 3, "ayf"@),
        part_spec(row_id(prefix, dec(6)), ayf_title_spec(l, 3), 3, "ayf"@),
        part_spec(row_id(prefix, dec(7)), ayf_title_spec(l, 4), 3, "ayf"@),
        part_spec(row_id(prefix, dec(8)), l.living, 15, "living"@),
        part_spec(row_id(prefix, dec(9)), l.cbs, 30, "living"@),
        part_spec(row_id(prefix, dec(10)), l.review, 3, "living"@),
    ]
}

/// The midweek skeleton.
pub fn midweek_parts(prefix: &str, labels: &Labels) -> (r: Vec<MeetingPart>)
    ensures
        parts_view(r@) == midweek_spec(prefix@, labels@),
{
    let mut r: Vec<MeetingPart> = Vec::new();
    r.push(part(make_row_id_n(prefix, 0).as_str(), labels.opening_comments, 1, "other"));
    r.push(part(make_row_id_n(prefix, 1).as_str(), labels.treasures, 10, "treasures"));
    r.push(part(make_row_id_n(prefix, 2).as_str(), labels.gems, 10, "treasures"));
    r.push(part(make_row_id_n(prefix, 3).as_str(), labels.reading, 4, "treasures"));
    r.push(part(make_row_id_n(prefix, 4).as_str(), ayf_title(labels, 1).as_str(), 3, "ayf"));
    r.push(part(make_row_id_n(prefix, 5).as_str(), ayf_title(labels, 2).as_str(), 3, "ayf"));
    r.push(part(make_row_id_n(prefix, 6).as_str(), ayf_title(labels, 3).as_str(), 3, "ayf"));
    r.push(part(make_row_id_n(prefix, 7).as_str(), ayf_title(labels, 4).as_str(), 3, "ayf"));
    r.push(part(make_row_id_n(prefix, 8).as_str(), labels.living, 15, "living"));
    r.push(part(make_row_id_n(prefix, 9).as_str(), labels.cbs, 30, "living"));
    r.push(part(make_row_id_n(prefix, 10).as_str(), labels.review, 3, "living"));
    assert(parts_view(r@) =~= midweek_spec(prefix@, labels@));
    r
}

/// The weekend skeleton.
pub open spec fn weekend_spec(prefix: Seq<char>, l: LabelsV) -> Seq<MeetingPartV> {
    seq![
        part_spec(row_id(prefix, dec(0)), l.public_talk, 30, "other"@),
        part_spec(row_id(prefix, dec(1)), l.watchtower, 60, "living"@),
    ]
}

/// The weekend skeleton.
pub fn weekend_parts(prefix: &str, labels: &Labels) -> (r: Vec<MeetingPart>)
    ensures
        parts_view(r@) == weekend_spec(prefix@, labels@),
{
    let mut r: Vec<MeetingPart> = Vec::new();
    r.push(part(make_row_id_n(prefix, 0).as_str(), labels.public_talk, 30, "other"));
    r.push(part(make_row_id_n(prefix, 1).as_str(), labels.watchtower, 60, "living"));
    assert(parts_view(r@) =~= weekend_spec(prefix@, labels@));
    r
}

/// The circuit-visit weekend skeleton.
pub open spec fn circuit_weekend_spec(prefix: Seq<char>, l: LabelsV) -> Seq<MeetingPartV> {
    seq![
        part_spec(row_id(prefix, dec(0)), l.public_talk_co, 30, "other"@),
        part_spec(row_id(prefix, dec(1)), l.watchtower, 60, "living"@),
    ]
}

/// The circuit-visit weekend skeleton.
pub fn circuit_weekend_parts(prefix: &str, labels: &Labels) -> (r: Vec<MeetingPart>)
    ensures
        parts_view(r@) == circuit_weekend_spec(prefix@, labels@),
{
    let mut r: Vec<MeetingPart> = Vec::new();
    r.push(part(make_row_id_n(prefix, 0).as_str(), labels.public_talk_co, 30, "other"));
    r.push(part(make_row_id_n(prefix, 1).as_str(), labels.watchtower, 60, "living"));
    assert(parts_view(r@) =~= circuit_weekend_spec(prefix@, labels@));
    r
}

/// The three rows a circuit visit adds to the midweek meeting.
pub open spec fn circuit_block_spec(prefix: Seq<char>, l: LabelsV) -> Seq<MeetingPartV> {
    seq![
        part_spec(row_id(prefix, "r"@), l.circuit_review, 3, "living"@),
        part_spec(row_id(prefix, "i"@), l.circuit_intro, 1, "living"@),
        part_spec(row_id(prefix, "s"@), l.service_talk, 30, "living"@),
    ]
}

/// The three rows a circuit visit adds to the midweek meeting.
pub fn circuit_block(prefix: &str, labels: &Labels) -> (r: Vec<MeetingPart>)
    ensures
        parts_view(r@) == circuit_block_spec(prefix@, labels@),
{
    let mut r: Vec<MeetingPart> = Vec::new();
    r.push(part(make_row_id(prefix, "r").as_str(), labels.circuit_review, 3, "living"));
    r.push(part(make_row_id(prefix, "i").as_str(), labels.circuit_intro, 1, "living"));
    r.push(part(make_row_id(prefix, "s").as_str(), labels.service_talk, 30, "living"));
    assert(parts_view(r@) =~= circuit_block_spec(prefix@, labels@));
    r
}

/// A congregation Bible study row (by title).
pub open spec fn is_cbs_spec(title: Seq<char>) -> bool {
    let t = ascii_lower(title);
    contains_seq(t, "congregation bible"@) || contains_seq(t, "estudio biblico"@) || contains_seq(
        t,
        "estudio bíblico"@,
    )
}

/// A closing review / announcements row (by title).
pub open spec fn is_review_spec(title: Seq<char>) -> bool {
    let t = ascii_lower(title);
    (contains_seq(t, "review"@) || contains_seq(t, "recapitul"@)) && (contains_seq(
        t,
        "announcement"@,
    ) || contains_seq(t, "anuncio"@) || contains_seq(t, "proxima"@) || contains_seq(
        t,
        "próxima"@,
    ) || contains_seq(t, "/"@))
}

/// Lower-cased characters of a title.
fn lower_chars(s: &str) -> (r: Vec<char>)
    ensures
        r@ == ascii_lower(s@),
{
    ascii_lower_vec(&chars_of(s))
}

/// Whether the lower-cased title contains `needle`.
fn has(t: &Vec<char>, needle: &str) -> (b: bool)
    ensures
        b == contains_seq(t@, needle@),
{
    contains_vec(t, &chars_of(needle))
}

/// True for a congregation Bible study row.
pub fn is_cbs(title: &str) -> (b: bool)
    ensures
        b == is_cbs_spec(title@),
{
    let t = lower_chars(title);
    has(&t, "congregation bible") || has(&t, "estudio biblico") || has(&t, "estudio bíblico")
}

/// True for a closing review / announcements row.
pub fn is_review(title: &str) -> (b: bool)
    ensures
        b == is_review_spec(title@),
{
    let t = lower_chars(title);
    (has(&t, "review") || has(&t, "recapitul")) && (has(&t, "announcement") || has(&t, "anuncio")
        || has(&t, "proxima") || has(&t, "próxima") || has(&t, "/"))
}

/// Parts kept for a circuit visit: no song rows, no study, no closing review.
pub open spec fn keep_for_circuit(p: MeetingPartV) -> bool {
    p.tone != "song"@ && !is_cbs_spec(p.title) && !is_review_spec(p.title)
}

/// The parts of `ps` that a circuit visit keeps, in order.
pub open spec fn circuit_kept(ps: Seq<MeetingPartV>) -> Seq<MeetingPartV>
    decreases ps.len(),
{
    if ps.len() == 0 {
        Seq::empty()
    } else {
        let r = circuit_kept(ps.drop_last());
        if keep_for_circuit(ps.last()) {
            r.push(ps.last())
        } else {
            r
        }
    }
}

/// Copies of the parts that a circuit visit keeps.
pub fn kept_for_circuit(parts: &Vec<MeetingPart>) -> (r: Vec<MeetingPart>)
    ensures
        parts_view(r@) == circuit_kept(parts_view(parts@)),
{
    let mut r: Vec<MeetingPart> = Vec::new();
    let mut i: usize = 0;
    while i < parts.len()
        invariant
            i <= parts@.len(),
            parts_view(r@) == circuit_kept(parts_view(parts@.take(i as int))),
        decreases parts@.len() - i,
    {
        let p = &parts[i];
        let ghost old_r = r@;
        proof {
            assert(parts_view(parts@.take(i + 1)).drop_last() =~= parts_view(parts@.take(i as int)));
            assert(parts_view(parts@.take(i + 1)).last() == p@);
            reveal_strlit("song");
        }
        let keep = !str_eq(p.tone.as_str(), "song") && !is_cbs(p.title.as_str()) && !is_review(
            p.title.as_str(),
        );
        if keep {
            r.push(p.copy());
            assert(parts_view(r@) =~= parts_view(old_r).push(p@));
        }
        i = i + 1;
    }
    assert(parts@.take(parts@.len() as int) =~= parts@);
    r
}

/// The circuit-visit midweek skeleton.
pub open spec fn circuit_midweek_spec(prefix: Seq<char>, l: LabelsV) -> Seq<MeetingPartV> {
    circuit_kept(midweek_spec(prefix, l)) + circuit_block_spec(prefix, l)
}

/// Appends copies of `extra` to `r`.
pub fn extend_parts(r: &mut Vec<MeetingPart>, extra: &Vec<MeetingPart>)
    ensures
        parts_view(final(r)@) == parts_view(old(r)@) + parts_view(extra@),
{
    let mut i: usize = 0;
    while i < extra.len()
        invariant
            i <= extra@.len(),
            parts_view(r@) == parts_view(old(r)@) + parts_view(extra@.take(i as int)),
        decreases extra@.len() - i,
    {
        let ghost before = r@;
        r.push(extra[i].copy());
        assert(parts_view(r@) =~= parts_view(before).push(extra@[i as int]@));
        assert(parts_view(extra@.take(i + 1)) =~= parts_view(extra@.take(i as int)).push(
            extra@[i as int]@,
        ));
        i = i + 1;
    }
    assert(extra@.take(extra@.len() as int) =~= extra@);
}

/// The circuit-visit midweek skeleton.
pub fn circuit_midweek_parts(prefix: &str, labels: &Labels) -> (r: Vec<MeetingPart>)
    ensures
        parts_view(r@) == circuit_midweek_spec(prefix@, labels@),
{
    let base = midweek_parts(prefix, labels);
    let mut r = kept_for_circuit(&base);
    let block = circuit_block(prefix, labels);
    extend_parts(&mut r, &block);
    r
}

/// The four system templates in display order.
pub open spec fn system_templates_spec(langwritten: Seq<char>) -> Seq<EventTemplateV> {
    let l = labels_spec(langwritten);
    seq![
        EventTemplateV {
            id: sys_midweek(),
            name: l.tpl_midweek,
            source: TemplateSource::System,
            kind: TemplateKind::Midweek,
            parts: midweek_spec("sys-mw"@, l),
        },
        EventTemplateV {
            id: sys_weekend(),
            name: l.tpl_weekend,
            source: TemplateSource::System,
            kind: TemplateKind::Weekend,
            parts: weekend_spec("sys-we"@, l),
        },
        EventTemplateV {
            id: sys_circuit_midweek(),
            name: l.tpl_circuit_mw,
            source: TemplateSource::System,
            kind: TemplateKind::Midweek,
            parts: circuit_midweek_spec("sys-cmw"@, l),
        },
        EventTemplateV {
            id: sys_circuit_weekend(),
            name: l.tpl_circuit_we,
            source: TemplateSource::System,
            kind: TemplateKind::Weekend,
            parts: circuit_weekend_spec("sys-cwe"@, l),
        },
    ]
}

/// Views of a list of templates.
pub open spec fn templates_view(v: Seq<EventTemplate>) -> Seq<EventTemplateV> {
    v.map_values(|t: EventTemplate| t@)
}

/// All four system templates, in display order, titled for `langwritten`.
pub fn system_templates(langwritten: &str) -> (r: Vec<EventTemplate>)
    ensures
        templates_view(r@) == system_templates_spec(langwritten@),
{
    let labels = labels_for(langwritten);
    let mut r: Vec<EventTemplate> = Vec::new();
    r.push(
        EventTemplate {
            id: owned("sys:midweek"),
            name: owned(labels.tpl_midweek),
            source: TemplateSource::System,
            kind: TemplateKind::Midweek,
            parts: midweek_parts("sys-mw", &labels),
        },
    );
    r.push(
        EventTemplate {
            id: owned("sys:weekend"),
            name: owned(labels.tpl_weekend),
            source: TemplateSource::System,
            kind: TemplateKind::Weekend,
            parts: weekend_parts("sys-we", &labels),
        },
    );
    r.push(
        EventTemplate {
            id: owned("sys:circuit-midweek"),
            name: owned(labels.tpl_circuit_mw),
            source: TemplateSource::System,
            kind: TemplateKind::Midweek,
            parts: circuit_midweek_parts("sys-cmw", &labels),
        },
    );
    r.push(
        EventTemplate {
            id: owned("sys:circuit-weekend"),
            name: owned(labels.tpl_circuit_we),
            source: TemplateSource::System,
            kind: TemplateKind::Weekend,
            parts: circuit_weekend_parts("sys-cwe", &labels),
        },
    );
    assert(templates_view(r@) =~= system_templates_spec(langwritten@));
    r
}

/// The first system template with this id, if any.
pub open spec fn find_template_spec(ts: Seq<EventTemplateV>, id: Seq<char>) -> Option<EventTemplateV>
    decreases ts.len(),
{
    if ts.len() == 0 {
        None
    } else if ts[0].id == id {
        Some(ts[0])
    } else {
        find_template_spec(ts.drop_first(), id)
    }
}

/// Looks up a system template by id.
pub fn system_template(id: &str, langwritten: &str) -> (r: Option<EventTemplate>)
    ensures
        match find_template_spec(system_templates_spec(langwritten@), id@) {
            Some(t) => r is Some && r->0@ == t,
            None => r is None,
        },
{
    let all = system_templates(langwritten);
    let mut i: usize = 0;
    assert(templates_view(all@).skip(0) =~= templates_view(all@));
    while i < all.len()
        invariant
            i <= all@.len(),
            templates_view(all@) == system_templates_spec(langwritten@),
            find_template_spec(templates_view(all@), id@) == find_template_spec(
                templates_view(all@).skip(i as int),
                id@,
            ),
        decreases all@.len() - i,
    {
        proof {
            assert(templates_view(all@).skip(i as int).drop_first() =~= templates_view(all@).skip(
                i + 1,
            ));
        }
        if str_eq(all[i].id.as_str(), id) {
            return Some(all[i].copy());
        }
        i = i + 1;
    }
    None
}

/// The system skeleton of a meeting kind.
pub open spec fn skeleton_spec(kind: MeetingKind, prefix: Seq<char>, langwritten: Seq<char>) -> Seq<MeetingPartV> {
    match kind {
        MeetingKind::Midweek => midweek_spec(prefix, labels_spec(langwritten)),
        MeetingKind::Weekend => weekend_spec(prefix, labels_spec(langwritten)),
    }
}

/// Midweek / weekend skeleton used when the week has no outline.
pub fn skeleton_parts(kind: MeetingKind, prefix: &str, langwritten: &str) -> (r: Vec<MeetingPart>)
    ensures
        parts_view(r@) == skeleton_spec(kind, prefix@, langwritten@),
{
    let labels = labels_for(langwritten);
    match kind {
        MeetingKind::Midweek => midweek_parts(prefix, &labels),
        MeetingKind::Weekend => weekend_parts(prefix, &labels),
    }
}

/// All media items of a list of parts, in order.
pub open spec fn flat_items(ps: Seq<MeetingPartV>) -> Seq<MediaItemV>
    decreases ps.len(),
{
    if ps.len() == 0 {
        Seq::empty()
    } else {
        flat_items(ps.drop_last()) + ps.last().items
    }
}

/// Parts that are not song rows, in order.
pub open spec fn non_song_parts(ps: Seq<MeetingPartV>) -> Seq<MeetingPartV>
    decreases ps.len(),
{
    if ps.len() == 0 {
        Seq::empty()
    } else {
        let r = non_song_parts(ps.drop_last());
        if ps.last().tone == "song"@ {
            r
        } else {
            r.push(ps.last())
        }
    }
}

/// Media of the song rows, in order.
pub open spec fn song_items(ps: Seq<MeetingPartV>) -> Seq<MediaItemV>
    decreases ps.len(),
{
    if ps.len() == 0 {
        Seq::empty()
    } else {
        let r = song_items(ps.drop_last());
        if ps.last().tone == "song"@ {
            r + ps.last().items
        } else {
            r
        }
    }
}

/// The week with song rows taken off the timer and their media moved to the leftovers.
pub open spec fn strip_songs_spec(w: MeetingWeekV) -> MeetingWeekV {
    MeetingWeekV { parts: non_song_parts(w.parts), media: w.media + song_items(w.parts), ..w }
}

/// Removes song rows; their media join the leftover list.
pub fn strip_songs(week: &mut MeetingWeek)
    ensures
        final(week)@ == strip_songs_spec(old(week)@),
{
    let mut kept: Vec<MeetingPart> = Vec::new();
    let mut extra: Vec<MediaItem> = Vec::new();
    let mut i: usize = 0;
    let ghost ps = parts_view(week.parts@);
    while i < week.parts.len()
        invariant
            i <= week.parts@.len(),
            ps == parts_view(week.parts@),
            parts_view(kept@) == non_song_parts(ps.take(i as int)),
            items_view(extra@) == song_items(ps.take(i as int)),
        decreases week.parts@.len() - i,
    {
        let p = &week.parts[i];
        proof {
            assert(ps.take(i + 1).drop_last() =~= ps.take(i as int));
            assert(ps.take(i + 1).last() == p@);
            reveal_strlit("song");
        }
        if str_eq(p.tone.as_str(), "song") {
            let more = copy_items(&p.items);
            let ghost before = extra@;
            append_items(&mut extra, &more);
        } else {
            let ghost before = kept@;
            kept.push(p.copy());
            assert(parts_view(kept@) =~= parts_view(before).push(p@));
        }
        i = i + 1;
    }
    assert(ps.take(ps.len() as int) =~= ps);
    let mut media = copy_items(&week.media);
    append_items(&mut media, &extra);
    week.parts = kept;
    week.media = media;
}

/// Appends copies of `extra` to `r`.
pub fn append_items(r: &mut Vec<MediaItem>, extra: &Vec<MediaItem>)
    ensures
        items_view(final(r)@) == items_view(old(r)@) + items_view(extra@),
{
    let mut i: usize = 0;
    while i < extra.len()
        invariant
            i <= extra@.len(),
            items_view(r@) == items_view(old(r)@) + items_view(extra@.take(i as int)),
        decreases extra@.len() - i,
    {
        let ghost before = r@;
        r.push(extra[i].copy());
        assert(items_view(r@) =~= items_view(before).push(extra@[i as int]@));
        assert(items_view(extra@.take(i + 1)) =~= items_view(extra@.take(i as int)).push(
            extra@[i as int]@,
        ));
        i = i + 1;
    }
    assert(extra@.take(extra@.len() as int) =~= extra@);
}

/// Outline prefix of a week: `{pub_symbol}-{monday}`.
pub open spec fn outline_prefix(w: MeetingWeekV) -> Seq<char> {
    w.pub_symbol + "-"@ + w.monday
}

/// The week with a skeleton outline when it had none, then without song rows.
pub open spec fn ensure_outline_spec(w: MeetingWeekV) -> MeetingWeekV {
    let filled = if w.parts.len() == 0 {
        MeetingWeekV { parts: skeleton_spec(w.kind, outline_prefix(w), w.langwritten), ..w }
    } else {
        w
    };
    strip_songs_spec(filled)
}

/// Fills empty `parts` from the system skeleton. Drops song rows.
pub fn ensure_outline(week: &mut MeetingWeek)
    ensures
        final(week)@ == ensure_outline_spec(old(week)@),
{
    if week.parts.len() == 0 {
        let prefix = concat2(concat2(week.pub_symbol.as_str(), "-").as_str(), week.monday.as_str());
        week.parts = skeleton_parts(week.kind, prefix.as_str(), week.langwritten.as_str());
    }
    strip_songs(week);
}

/// All media of a week: the part items, then the leftovers.
pub open spec fn collect_media_spec(w: MeetingWeekV) -> Seq<MediaItemV> {
    flat_items(w.parts) + w.media
}

/// All media of a week: the part items, then the leftovers.
pub fn collect_media(week: &MeetingWeek) -> (r: Vec<MediaItem>)
    ensures
        items_view(r@) == collect_media_spec(week@),
{
    let mut out: Vec<MediaItem> = Vec::new();
    let mut i: usize = 0;
    let ghost ps = parts_view(week.parts@);
    while i < week.parts.len()
        invariant
            i <= week.parts@.len(),
            ps == parts_view(week.parts@),
            items_view(out@) == flat_items(ps.take(i as int)),
        decreases week.parts@.len() - i,
    {
        proof {
            assert(ps.take(i + 1).drop_last() =~= ps.take(i as int));
        }
        append_items(&mut out, &week.parts[i].items);
        i = i + 1;
    }
    assert(ps.take(ps.len() as int) =~= ps);
    append_items(&mut out, &week.media);
    out
}

/// Ids of a list of items.
pub open spec fn ids_of(items: Seq<MediaItemV>) -> Seq<Seq<char>> {
    items.map_values(|i: MediaItemV| i.id)
}

/// Items whose id no part uses, in order.
pub open spec fn leftover_spec(used: Seq<Seq<char>>, items: Seq<MediaItemV>) -> Seq<MediaItemV>
    decreases items.len(),
{
    if items.len() == 0 {
        Seq::empty()
    } else {
        let r = leftover_spec(used, items.drop_last());
        if used.contains(items.last().id) {
            r
        } else {
            r.push(items.last())
        }
    }
}

/// Whether `id` is one of `ids`.
fn contains_id(ids: &Vec<String>, id: &str) -> (b: bool)
    ensures
        b == crate::week::strings_view(ids@).contains(id@),
{
    let mut i: usize = 0;
    while i < ids.len()
        invariant
            i <= ids@.len(),
            forall|k: int| 0 <= k < i ==> ids@[k]@ != id@,
        decreases ids@.len() - i,
    {
        if str_eq(ids[i].as_str(), id) {
            assert(crate::week::strings_view(ids@)[i as int] == id@);
            return true;
        }
        i = i + 1;
    }
    assert forall|k: int| 0 <= k < ids@.len() implies crate::week::strings_view(ids@)[k] != id@ by {
    }
    false
}

/// Ids of all items under the parts.
fn used_ids(parts: &Vec<MeetingPart>) -> (r: Vec<String>)
    ensures
        crate::week::strings_view(r@) == ids_of(flat_items(parts_view(parts@))),
{
    let mut r: Vec<String> = Vec::new();
    let mut i: usize = 0;
    let ghost ps = parts_view(parts@);
    while i < parts.len()
        invariant
            i <= parts@.len(),
            ps == parts_view(parts@),
            crate::week::strings_view(r@) == ids_of(flat_items(ps.take(i as int))),
        decreases parts@.len() - i,
    {
        proof {
            assert(ps.take(i + 1).drop_last() =~= ps.take(i as int));
        }
        let items = &parts[i].items;
        let mut k: usize = 0;
        let ghost base = flat_items(ps.take(i as int));
        while k < items.len()
            invariant
                k <= items@.len(),
                items == &parts@[i as int].items,
                crate::week::strings_view(r@) == ids_of(base + items_view(items@).take(k as int)),
            decreases items@.len() - k,
        {
            let ghost before = r@;
            r.push(items[k].id.clone());
            assert(ids_of(base + items_view(items@).take(k + 1)) =~= ids_of(
                base + items_view(items@).take(k as int),
            ).push(items@[k as int].id@));
            assert(crate::week::strings_view(r@) =~= crate::week::strings_view(before).push(
                items@[k as int].id@,
            ));
            k = k + 1;
        }
        assert(items_view(items@).take(items@.len() as int) =~= items_view(items@));
        i = i + 1;
    }
    assert(ps.take(ps.len() as int) =~= ps);
    r
}

/// Items whose id no part uses, in order.
pub fn leftover_media(parts: &Vec<MeetingPart>, items: &Vec<MediaItem>) -> (r: Vec<MediaItem>)
    ensures
        items_view(r@) == leftover_spec(ids_of(flat_items(parts_view(parts@))), items_view(items@)),
{
    let used = used_ids(parts);
    let ghost u = ids_of(flat_items(parts_view(parts@)));
    let ghost iv = items_view(items@);
    let mut r: Vec<MediaItem> = Vec::new();
    let mut i: usize = 0;
    while i < items.len()
        invariant
            i <= items@.len(),
            iv == items_view(items@),
            crate::week::strings_view(used@) == u,
            items_view(r@) == leftover_spec(u, iv.take(i as int)),
        decreases items@.len() - i,
    {
        proof {
            assert(iv.take(i + 1).drop_last() =~= iv.take(i as int));
            assert(iv.take(i + 1).last() == items@[i as int]@);
        }
        if !contains_id(&used, items[i].id.as_str()) {
            let ghost before = r@;
            r.push(items[i].copy());
            assert(items_view(r@) =~= items_view(before).push(items@[i as int]@));
        }
        i = i + 1;
    }
    assert(iv.take(iv.len() as int) =~= iv);
    r
}

/// Parts for a circuit visit built from an existing midweek outline.
pub open spec fn circuit_from_midweek_spec(existing: Seq<MeetingPartV>, langwritten: Seq<char>) -> Seq<MeetingPartV> {
    let l = labels_spec(langwritten);
    let kept = circuit_kept(existing);
    if kept.len() == 0 {
        circuit_midweek_spec("sys-cmw"@, l)
    } else {
        kept + circuit_block_spec("sys-cmw"@, l)
    }
}

/// Parts for a circuit visit built from an existing midweek outline.
pub fn circuit_from_midweek(existing: &Vec<MeetingPart>, langwritten: &str) -> (r: Vec<MeetingPart>)
    ensures
        parts_view(r@) == circuit_from_midweek_spec(parts_view(existing@), langwritten@),
{
    let labels = labels_for(langwritten);
    let mut kept = kept_for_circuit(existing);
    if kept.len() == 0 {
        return circuit_midweek_parts("sys-cmw", &labels);
    }
    let block = circuit_block("sys-cmw", &labels);
    extend_parts(&mut kept, &block);
    kept
}

/// A template row as applied: ids that are empty or system ids are renamed
/// `{template id}:{index}`, and media are cleared.
pub open spec fn applied_row(template_id: Seq<char>, i: int, p: MeetingPartV) -> MeetingPartV {
    MeetingPartV {
        id: if p.id.len() == 0 || starts_with_seq(p.id, "sys:"@) {
            row_id(template_id, dec(i as nat))
        } else {
            p.id
        },
        items: Seq::empty(),
        ..p
    }
}

/// Template rows as applied.
pub open spec fn applied_rows(t: EventTemplateV) -> Seq<MeetingPartV> {
    Seq::new(t.parts.len(), |i: int| applied_row(t.id, i, t.parts[i]))
}

/// New part list when applying a template.
pub open spec fn applied_parts(w: MeetingWeekV, t: EventTemplateV) -> Seq<MeetingPartV> {
    if t.id == sys_circuit_midweek() && w.parts.len() > 0 {
        circuit_from_midweek_spec(w.parts, w.langwritten)
    } else {
        applied_rows(t)
    }
}

/// The week after applying a template: new rows, the media that no row
/// uses kept as leftovers, then song rows stripped.
pub open spec fn apply_template_spec(w: MeetingWeekV, t: EventTemplateV) -> MeetingWeekV {
    let parts = applied_parts(w, t);
    let media = leftover_spec(ids_of(flat_items(parts)), collect_media_spec(w));
    strip_songs_spec(MeetingWeekV { parts, media, ..w })
}

/// Replaces `week.parts` with `template`. Song rows are dropped.
pub fn apply_template(week: &mut MeetingWeek, template: &EventTemplate)
    ensures
        final(week)@ == apply_template_spec(old(week)@, template@),
{
    let stash = collect_media(week);
    proof {
        reveal_strlit("sys:circuit-midweek");
    }
    let circuit = str_eq(template.id.as_str(), "sys:circuit-midweek") && week.parts.len() > 0;
    if circuit {
        week.parts = circuit_from_midweek(&week.parts, week.langwritten.as_str());
    } else {
        week.parts = applied_template_rows(template);
    }
    week.media = leftover_media(&week.parts, &stash);
    strip_songs(week);
}

/// Template rows as applied.
pub fn applied_template_rows(template: &EventTemplate) -> (r: Vec<MeetingPart>)
    ensures
        parts_view(r@) == applied_rows(template@),
        r@.len() == template.parts@.len(),
        forall|i: int|
            #![trigger r@[i]]
            0 <= i < r@.len() ==> r@[i].title@ == template.parts@[i].title@ && r@[i].minutes
                == template.parts@[i].minutes && r@[i].tone@ == template.parts@[i].tone@ && r@[i].items@.len() == 0,
{
    let mut r: Vec<MeetingPart> = Vec::new();
    let mut i: usize = 0;
    while i < template.parts.len()
        invariant
            i <= template.parts@.len(),
            parts_view(r@) == applied_rows(template@).take(i as int),
        decreases template.parts@.len() - i,
    {
        let src = &template.parts[i];
        let rename = src.id.as_str().is_empty() || str_starts_with(src.id.as_str(), "sys:");
        let id = if rename {
            make_row_id_n(template.id.as_str(), i as u64)
        } else {
            src.id.clone()
        };
        let row = MeetingPart {
            id,
            title: src.title.clone(),
            minutes: src.minutes,
            tone: src.tone.clone(),
            items: Vec::new(),
        };
        let ghost before = r@;
        r.push(row);
        proof {
            assert(row@.items =~= Seq::<MediaItemV>::empty());
            assert(row@ == applied_row(template@.id, i as int, template@.parts[i as int]));
            assert(parts_view(r@) =~= parts_view(before).push(row@));
            assert(applied_rows(template@).take(i + 1) =~= applied_rows(template@).take(
                i as int,
            ).push(row@));
        }
        i = i + 1;
    }
    assert(applied_rows(template@).take(template.parts@.len() as int) =~= applied_rows(
        template@,
    ));
    proof {
        assert forall|k: int| #![trigger r@[k]] 0 <= k < r@.len() implies r@[k].title@ == template.parts@[k].title@
            && r@[k].minutes == template.parts@[k].minutes && r@[k].tone@ == template.parts@[k].tone@
            && r@[k].items@.len() == 0 by {
            assert(parts_view(r@).len() == r@.len());
            assert(parts_view(r@)[k] == r@[k]@);
            assert(items_view(r@[k].items@).len() == r@[k].items@.len());
            assert(applied_rows(template@)[k] == applied_row(template@.id, k, template@.parts[k]));
            assert(template@.parts[k] == template.parts@[k]@);
        }
    }
    r
}

/// An accepted part tone.
pub open spec fn tone_ok(tone: Seq<char>) -> bool {
    tone == "treasures"@ || tone == "ayf"@ || tone == "living"@ || tone == "song"@ || tone
        == "other"@
}

/// True for `treasures`, `ayf`, `living`, `song`, `other`.
pub fn is_tone(tone: &str) -> (b: bool)
    ensures
        b == tone_ok(tone@),
{
    str_eq(tone, "treasures") || str_eq(tone, "ayf") || str_eq(tone, "living") || str_eq(
        tone,
        "song",
    ) || str_eq(tone, "other")
}

/// First complaint about a row, if any.
pub open spec fn part_problem(p: MeetingPartV) -> Option<Seq<char>> {
    let t = trim_seq(p.title);
    if t.len() == 0 || utf8_len(t) > 80 {
        Some("part title must be 1-80 characters"@)
    } else if p.minutes is Some && !(1 <= p.minutes->0 <= 180) {
        Some("minutes must be 1-180"@)
    } else if !tone_ok(p.tone) {
        Some("tone must be treasures, ayf, living, song, or other"@)
    } else {
        None
    }
}

/// First complaint about a row list, if any.
pub open spec fn parts_problem(ps: Seq<MeetingPartV>) -> Option<Seq<char>>
    decreases ps.len(),
{
    if ps.len() == 0 {
        None
    } else {
        match part_problem(ps[0]) {
            Some(m) => Some(m),
            None => parts_problem(ps.drop_first()),
        }
    }
}

/// Complaint about a user-edited row list: too many rows, or the first bad row.
pub open spec fn validate_parts_spec(ps: Seq<MeetingPartV>) -> Option<Seq<char>> {
    if ps.len() > 40 {
        Some("at most 40 parts"@)
    } else {
        parts_problem(ps)
    }
}

/// Whether a trimmed title is 1–80 bytes.
fn title_len_ok(title: &str) -> (b: bool)
    ensures
        b == (trim_seq(title@).len() != 0 && utf8_len(trim_seq(title@)) <= 80),
{
    let t = trim(title);
    let cs = chars_of(t.as_str());
    if cs.len() == 0 {
        return false;
    }
    match utf8_len_within(&cs, 80) {
        Some(_) => true,
        None => false,
    }
}

/// Validates a user-edited row list before persist.
pub fn validate_parts(parts: &Vec<MeetingPart>) -> (r: Result<(), AppError>)
    ensures
        match validate_parts_spec(parts_view(parts@)) {
            None => r is Ok,
            Some(msg) => r is Err && crate::week::err_says(r->Err_0, msg),
        },
{
    if parts.len() > 40 {
        return Err(AppError::rule("at most 40 parts"));
    }
    let ghost ps = parts_view(parts@);
    let mut i: usize = 0;
    assert(ps.skip(0) =~= ps);
    while i < parts.len()
        invariant
            i <= parts@.len(),
            parts@.len() <= 40,
            ps == parts_view(parts@),
            parts_problem(ps) == parts_problem(ps.skip(i as int)),
        decreases parts@.len() - i,
    {
        let p = &parts[i];
        proof {
            assert(ps.skip(i as int).drop_first() =~= ps.skip(i + 1));
            assert(ps.skip(i as int)[0] == p@);
            assert(parts_problem(ps.skip(i as int)) == match part_problem(p@) {
                Some(m) => Some(m),
                None => parts_problem(ps.skip(i + 1)),
            });
        }
        if !title_len_ok(p.title.as_str()) {
            return Err(AppError::rule("part title must be 1-80 characters"));
        }
        if let Some(minutes) = p.minutes {
            if minutes < 1 || minutes > 180 {
                return Err(AppError::rule("minutes must be 1-180"));
            }
        }
        if !is_tone(p.tone.as_str()) {
            return Err(AppError::rule("tone must be treasures, ayf, living, song, or other"));
        }
        i = i + 1;
    }
    assert(ps.skip(i as int) =~= Seq::<MeetingPartV>::empty());
    Ok(())
}

/// Whether a user template name is acceptable.
pub open spec fn template_name_ok(name: Seq<char>) -> bool {
    trim_seq(name).len() != 0 && utf8_len(trim_seq(name)) <= 80
}

/// Validates a user template name.
pub fn validate_template_name(name: &str) -> (r: Result<(), AppError>)
    ensures
        r is Ok <==> template_name_ok(name@),
        r is Err ==> crate::week::err_says(r->Err_0, "template name must be 1-80 characters"@),
{
    if !title_len_ok(name) {
        return Err(AppError::rule("template name must be 1-80 characters"));
    }
    Ok(())
}


proof fn lemma_non_song_parts_have_no_songs(ps: Seq<MeetingPartV>)
    ensures
        forall|i: int|
            0 <= i < non_song_parts(ps).len() ==> #[trigger] non_song_parts(ps)[i].tone != "song"@,
    decreases ps.len(),
{
    if ps.len() > 0 {
        lemma_non_song_parts_have_no_songs(ps.drop_last());
    }
}

proof fn lemma_strip_split(ps: Seq<MeetingPartV>)
    ensures
        (flat_items(non_song_parts(ps)) + song_items(ps)).to_multiset() =~= flat_items(
            ps,
        ).to_multiset(),
    decreases ps.len(),
{
    broadcast use vstd::seq_lib::lemma_multiset_commutative;
    broadcast use vstd::multiset::group_multiset_axioms;

    if ps.len() > 0 {
        let q = ps.drop_last();
        let p = ps.last();
        lemma_strip_split(q);
        if p.tone == "song"@ {
            assert(flat_items(non_song_parts(ps)) + song_items(ps) =~= (flat_items(
                non_song_parts(q),
            ) + song_items(q)) + p.items);
        } else {
            assert(non_song_parts(ps).drop_last() =~= non_song_parts(q));
            assert(flat_items(non_song_parts(ps)) =~= flat_items(non_song_parts(q)) + p.items);
            let a = flat_items(non_song_parts(q));
            let b = song_items(q);
            assert((a + p.items + b).to_multiset() =~= (a + b).to_multiset().add(
                p.items.to_multiset(),
            ));
        }
    }
}

proof fn lemma_non_song_parts_idempotent(ps: Seq<MeetingPartV>)
    ensures
        non_song_parts(non_song_parts(ps)) == non_song_parts(ps),
        song_items(non_song_parts(ps)) == Seq::<MediaItemV>::empty(),
    decreases ps.len(),
{
    if ps.len() > 0 {
        let q = ps.drop_last();
        lemma_non_song_parts_idempotent(q);
        if ps.last().tone != "song"@ {
            assert(non_song_parts(ps).drop_last() =~= non_song_parts(q));
        }
    }
}

pub proof fn lemma_leftover_keeps(used: Seq<Seq<char>>, items: Seq<MediaItemV>, k: int)
    requires
        0 <= k < items.len(),
        !used.contains(items[k].id),
    ensures
        leftover_spec(used, items).contains(items[k]),
    decreases items.len(),
{
    let r = leftover_spec(used, items.drop_last());
    if k == items.len() - 1 {
        assert(leftover_spec(used, items) == r.push(items.last()));
        assert(leftover_spec(used, items)[r.len() as int] == items[k]);
    } else {
        lemma_leftover_keeps(used, items.drop_last(), k);
        let j = choose|j: int| 0 <= j < r.len() && r[j] == items[k];
        if !used.contains(items.last().id) {
            assert(leftover_spec(used, items)[j] == items[k]);
        }
    }
}

/// Taking song rows off the timer leaves no song row behind.
pub proof fn law_strip_songs_leaves_no_song_rows(w: MeetingWeekV)
    ensures
        forall|i: int|
            0 <= i < strip_songs_spec(w).parts.len() ==> #[trigger] strip_songs_spec(w).parts[i].tone
                != "song"@,
{
    lemma_non_song_parts_have_no_songs(w.parts);
}

/// Taking song rows off the timer loses no media: the week's items, counted
/// with repetition, are the same before and after.
pub proof fn law_strip_songs_keeps_media(w: MeetingWeekV)
    ensures
        collect_media_spec(strip_songs_spec(w)).to_multiset() =~= collect_media_spec(
            w,
        ).to_multiset(),
{
    broadcast use vstd::seq_lib::lemma_multiset_commutative;
    broadcast use vstd::multiset::group_multiset_axioms;

    lemma_strip_split(w.parts);
    let a = flat_items(non_song_parts(w.parts));
    let b = song_items(w.parts);
    assert(collect_media_spec(strip_songs_spec(w)) == a + (w.media + b));
    assert((a + (w.media + b)).to_multiset() =~= (a + b).to_multiset().add(w.media.to_multiset()));
}

/// Taking song rows off twice is the same as once.
pub proof fn law_strip_songs_idempotent(w: MeetingWeekV)
    ensures
        strip_songs_spec(strip_songs_spec(w)) == strip_songs_spec(w),
{
    lemma_non_song_parts_idempotent(w.parts);
    assert(w.media + song_items(w.parts) + song_items(non_song_parts(w.parts)) =~= w.media
        + song_items(w.parts));
}

/// After the outline is ensured, no song row is on the timer.
pub proof fn law_outline_has_no_song_rows(w: MeetingWeekV)
    ensures
        forall|i: int|
            0 <= i < ensure_outline_spec(w).parts.len() ==> #[trigger] ensure_outline_spec(
                w,
            ).parts[i].tone != "song"@,
{
    let filled = if w.parts.len() == 0 {
        MeetingWeekV { parts: skeleton_spec(w.kind, outline_prefix(w), w.langwritten), ..w }
    } else {
        w
    };
    law_strip_songs_leaves_no_song_rows(filled);
}

/// After a template is applied, no song row is on the timer.
pub proof fn law_applied_template_has_no_song_rows(w: MeetingWeekV, t: EventTemplateV)
    ensures
        forall|i: int|
            0 <= i < apply_template_spec(w, t).parts.len() ==> #[trigger] apply_template_spec(
                w,
                t,
            ).parts[i].tone != "song"@,
{
    let parts = applied_parts(w, t);
    let media = leftover_spec(ids_of(flat_items(parts)), collect_media_spec(w));
    law_strip_songs_leaves_no_song_rows(MeetingWeekV { parts, media, ..w });
}

proof fn lemma_non_song_parts_keeps_all(ps: Seq<MeetingPartV>)
    requires
        forall|i: int| 0 <= i < ps.len() ==> #[trigger] ps[i].tone != "song"@,
    ensures
        non_song_parts(ps) == ps,
    decreases ps.len(),
{
    if ps.len() > 0 {
        lemma_non_song_parts_keeps_all(ps.drop_last());
        assert(ps.drop_last().push(ps.last()) =~= ps);
    }
}

/// Outside the circuit-midweek case, a template without song rows becomes
/// the week's timer rows one for one: as many rows as the template has, and
/// row `i` has the title, minutes and tone of template row `i`, with no media.
pub proof fn law_applied_template_rows_are_the_templates(w: MeetingWeekV, t: EventTemplateV)
    requires
        !(t.id == sys_circuit_midweek() && w.parts.len() > 0),
        forall|i: int| 0 <= i < t.parts.len() ==> #[trigger] t.parts[i].tone != "song"@,
    ensures
        apply_template_spec(w, t).parts.len() == t.parts.len(),
        forall|i: int|
            0 <= i < t.parts.len() ==> #[trigger] apply_template_spec(w, t).parts[i].title == t.parts[i].title
                && apply_template_spec(w, t).parts[i].minutes == t.parts[i].minutes && apply_template_spec(
                w,
                t,
            ).parts[i].tone == t.parts[i].tone && apply_template_spec(w, t).parts[i].items.len() == 0,
{
    let rows = applied_parts(w, t);
    assert(rows == applied_rows(t));
    assert forall|i: int| 0 <= i < rows.len() implies #[trigger] rows[i].tone != "song"@ by {
        assert(rows[i] == applied_row(t.id, i, t.parts[i]));
    }
    lemma_non_song_parts_keeps_all(rows);
    assert forall|i: int| 0 <= i < t.parts.len() implies #[trigger] apply_template_spec(w, t).parts[i].title
        == t.parts[i].title && apply_template_spec(w, t).parts[i].minutes == t.parts[i].minutes
        && apply_template_spec(w, t).parts[i].tone == t.parts[i].tone && apply_template_spec(
        w,
        t,
    ).parts[i].items.len() == 0 by {
        assert(rows[i] == applied_row(t.id, i, t.parts[i]));
    }
}

/// Applying a template loses no media: every item the week had, on a row or
/// as a leftover, is still there afterwards under the same id.
pub proof fn law_apply_template_keeps_media(w: MeetingWeekV, t: EventTemplateV)
    ensures
        forall|k: int|
            0 <= k < collect_media_spec(w).len() ==> ids_of(
                collect_media_spec(apply_template_spec(w, t)),
            ).contains(#[trigger] collect_media_spec(w)[k].id),
{
    broadcast use vstd::seq_lib::group_to_multiset_ensures;

    let stash = collect_media_spec(w);
    let parts = applied_parts(w, t);
    let used = ids_of(flat_items(parts));
    let mid = MeetingWeekV { parts, media: leftover_spec(used, stash), ..w };
    let after = apply_template_spec(w, t);
    assert(after == strip_songs_spec(mid));
    law_strip_songs_keeps_media(mid);
    assert forall|k: int| 0 <= k < stash.len() implies ids_of(collect_media_spec(after)).contains(
        #[trigger] stash[k].id,
    ) by {
        let x = stash[k];
        let witness = if used.contains(x.id) {
            let j = choose|j: int| 0 <= j < used.len() && used[j] == x.id;
            let y = flat_items(parts)[j];
            assert(collect_media_spec(mid)[j] == y);
            y
        } else {
            lemma_leftover_keeps(used, stash, k);
            let j = choose|j: int|
                0 <= j < mid.media.len() && mid.media[j] == x;
            assert(collect_media_spec(mid)[flat_items(parts).len() + j] == x);
            x
        };
        assert(collect_media_spec(mid).contains(witness));
        assert(collect_media_spec(mid).to_multiset().count(witness) > 0);
        assert(collect_media_spec(after).to_multiset().count(witness) > 0);
        assert(collect_media_spec(after).contains(witness));
        let i = choose|i: int|
            0 <= i < collect_media_spec(after).len() && collect_media_spec(after)[i] == witness;
        assert(ids_of(collect_media_spec(after))[i] == x.id);
    }
}

/// Wire name of a template kind.
pub open spec fn kind_text(kind: TemplateKind) -> Seq<char> {
    match kind {
        TemplateKind::Midweek => "midweek"@,
        TemplateKind::Weekend => "weekend"@,
        TemplateKind::Event => "event"@,
    }
}

impl TemplateKind {
    /// Wire name stored with a user template.
    pub fn as_str(self) -> (s: &'static str)
        ensures
            s@ == kind_text(self),
    {
        match self {
            TemplateKind::Midweek => "midweek",
            TemplateKind::Weekend => "weekend",
            TemplateKind::Event => "event",
        }
    }
}

/// The complaint about saving a user template, if any: its name, then its
/// rows, then an id that names a system template.
pub open spec fn save_problem(name: Seq<char>, parts: Seq<MeetingPartV>, id: Option<Seq<char>>) -> Option<Seq<char>> {
    if !template_name_ok(name) {
        Some("template name must be 1-80 characters"@)
    } else if validate_parts_spec(parts) is Some {
        validate_parts_spec(parts)
    } else if id matches Some(i) && starts_with_seq(i, "sys:"@) {
        Some("system templates cannot be overwritten"@)
    } else {
        None
    }
}

/// Checks a user template before it is written.
pub fn check_template_save(name: &str, parts: &Vec<MeetingPart>, id: Option<&str>) -> (r: Result<(), AppError>)
    ensures
        match save_problem(name@, parts_view(parts@), match id {
            Some(i) => Some(i@),
            None => None,
        }) {
            None => r is Ok,
            Some(msg) => r is Err && crate::week::err_says(r->Err_0, msg),
        },
{
    match validate_template_name(name) {
        Ok(()) => {},
        Err(e) => return Err(e),
    }
    match validate_parts(parts) {
        Ok(()) => {},
        Err(e) => return Err(e),
    }
    match id {
        Some(existing) => {
            if str_starts_with(existing, "sys:") {
                return Err(AppError::rule("system templates cannot be overwritten"));
            }
        },
        None => {},
    }
    Ok(())
}

/// Refuses deleting a system template.
pub fn check_template_delete(id: &str) -> (r: Result<(), AppError>)
    ensures
        r is Ok <==> !starts_with_seq(id@, "sys:"@),
        r is Err ==> crate::week::err_says(r->Err_0, "system templates cannot be deleted"@),
{
    if str_starts_with(id, "sys:") {
        return Err(AppError::rule("system templates cannot be deleted"));
    }
    Ok(())
}

/// The user template as saved: the trimmed name, user source.
pub fn saved_template(id: String, name: &str, kind: TemplateKind, parts: Vec<MeetingPart>) -> (t: EventTemplate)
    ensures
        t@ == (EventTemplateV {
            id: id@,
            name: trim_seq(name@),
            source: TemplateSource::User,
            kind,
            parts: parts_view(parts@),
        }),
{
    EventTemplate { id, name: trim(name), source: TemplateSource::User, kind, parts }
}

} // verus!
