//! Media sources: catalog keys and the traits that catalog clients implement.
//! HTTP and the filesystem live in adapters, not here.

use vstd::prelude::*;

use crate::error::AppError;
use crate::hymnal::HymnalCatalogTrack;
use crate::text::{owned, str_eq_ignore_ascii_case};
use crate::week::{normalize_issue_tag, normalized_tag, opt_view, MediaItem, MediaItemV, MediaRef, MediaRefV};

verus! {

/// Catalog/media source. None is registered yet; adapters add themselves.
pub trait MediaProvider {
    /// Stable provider id used on media handles (`jw-org`, `local`, ...).
    fn id(&self) -> &'static str;
}

/// Holds `MediaProvider` implementations, with the id of each in
/// registration order.
pub struct ProviderRegistry {
    inner: Vec<Box<dyn MediaProvider>>,
    ids: Vec<&'static str>,
}

impl ProviderRegistry {
    /// Ids of the registered providers, in registration order.
    pub closed spec fn provider_ids(&self) -> Seq<&'static str> {
        self.ids@
    }

    /// Empty registry. Playback commands must not special-case provider ids.
    pub fn new() -> (r: ProviderRegistry)
        ensures
            r.provider_ids().len() == 0,
    {
        ProviderRegistry { inner: Vec::new(), ids: Vec::new() }
    }

    /// True when no provider has been registered yet.
    pub fn is_empty(&self) -> (b: bool)
        ensures
            b == (self.provider_ids().len() == 0),
    {
        self.ids.len() == 0
    }

    /// Registers a provider.
    pub fn register(&mut self, provider: Box<dyn MediaProvider>)
        ensures
            final(self).provider_ids().len() == old(self).provider_ids().len() + 1,
            final(self).provider_ids().drop_last() == old(self).provider_ids(),
    {
        let id = provider.id();
        self.ids.push(id);
        self.inner.push(provider);
    }
}

/// File kind requested from the catalog.
#[derive(Debug, Clone, Copy, PartialEq, Eq, Structural)]
pub enum CatalogFormat {
    Jwpub,
    Mp4,
}

/// Wire token of a format.
pub open spec fn format_token(f: CatalogFormat) -> Seq<char> {
    match f {
        CatalogFormat::Jwpub => "JWPUB"@,
        CatalogFormat::Mp4 => "MP4"@,
    }
}

impl CatalogFormat {
    /// Wire token used by the catalog API.
    pub fn as_str(self) -> (s: &'static str)
        ensures
            s@ == format_token(self),
    {
        match self {
            CatalogFormat::Jwpub => "JWPUB",
            CatalogFormat::Mp4 => "MP4",
        }
    }
}

/// Lookup key for the catalog. No host or URL.
#[derive(Debug)]
pub struct CatalogKey {
    pub langwritten: String,
    pub pub_symbol: String,
    pub issue: Option<String>,
    pub track: Option<u32>,
    pub format: CatalogFormat,
}

/// A [`CatalogKey`] with its strings as characters.
pub struct CatalogKeyV {
    pub langwritten: Seq<char>,
    pub pub_symbol: Seq<char>,
    pub issue: Option<Seq<char>>,
    pub track: Option<u32>,
    pub format: CatalogFormat,
}

impl View for CatalogKey {
    type V = CatalogKeyV;

    open spec fn view(&self) -> CatalogKeyV {
        CatalogKeyV {
            langwritten: self.langwritten@,
            pub_symbol: self.pub_symbol@,
            issue: opt_view(self.issue),
            track: self.track,
            format: self.format,
        }
    }
}

impl CatalogKey {
    /// A copy with the same contents.
    pub fn copy(&self) -> (r: CatalogKey)
        ensures
            r@ == self@,
    {
        CatalogKey {
            langwritten: self.langwritten.clone(),
            pub_symbol: self.pub_symbol.clone(),
            issue: crate::week::copy_opt(&self.issue),
            track: self.track,
            format: self.format,
        }
    }
}

/// Metadata the domain may see. The checksum is compared with disk; the
/// URL stays in the adapter.
#[derive(Debug)]
pub struct CatalogHit {
    pub key: CatalogKey,
    pub checksum: String,
    pub size: u64,
}

/// A [`CatalogHit`] with its strings as characters.
pub struct CatalogHitV {
    pub key: CatalogKeyV,
    pub checksum: Seq<char>,
    pub size: u64,
}

impl View for CatalogHit {
    type V = CatalogHitV;

    open spec fn view(&self) -> CatalogHitV {
        CatalogHitV { key: self.key@, checksum: self.checksum@, size: self.size }
    }
}

impl CatalogHit {
    /// A copy with the same contents.
    pub fn copy(&self) -> (r: CatalogHit)
        ensures
            r@ == self@,
    {
        CatalogHit { key: self.key.copy(), checksum: self.checksum.clone(), size: self.size }
    }
}

/// Discovers a publication or track without downloading it. Adapters
/// implement it; `lookup` answers `CatalogNotFound` when the catalog has no
/// such file.
pub trait PublicationCatalog {
    /// Resolves metadata for a catalog key.
    fn lookup(&mut self, key: &CatalogKey) -> Result<CatalogHit, AppError>;

    /// Lists hymnal tracks (1..=163) of the songbook.
    fn list_hymnal_tracks(&mut self, langwritten: &str) -> Result<Vec<HymnalCatalogTrack>, AppError>;
}

/// Downloads bytes for a catalog key. Implementations talk HTTP.
pub trait MediaResolver {
    /// Fetches the file body. The caller writes it and verifies the checksum.
    fn fetch(&mut self, key: &CatalogKey) -> Result<Vec<u8>, AppError>;
}

/// The catalog key of a media item to be downloaded into `week/`: none for
/// embedded files and for songbook (`sjjm`) tracks; otherwise an MP4 key
/// with the item's symbol and track, and its issue unless the tag is 0.
pub open spec fn catalog_key_spec(item: MediaItemV, langwritten: Seq<char>) -> Option<CatalogKeyV> {
    match item.media_ref {
        MediaRefV::Catalog { key_symbol, track, issue_tag, .. } => {
            if crate::text::eq_ignore_ascii_case_seq(key_symbol, "sjjm"@) {
                None
            } else {
                Some(
                    CatalogKeyV {
                        langwritten,
                        pub_symbol: key_symbol,
                        issue: if issue_tag == 0 {
                            None
                        } else {
                            Some(normalized_tag(issue_tag))
                        },
                        track: Some(track),
                        format: CatalogFormat::Mp4,
                    },
                )
            }
        },
        MediaRefV::Embedded { .. } => None,
    }
}

/// Builds a catalog key for a pending video item.
pub fn catalog_key_for_item(item: &MediaItem, langwritten: &str) -> (r: Option<CatalogKey>)
    ensures
        match catalog_key_spec(item@, langwritten@) {
            Some(k) => r is Some && r->0@ == k,
            None => r is None,
        },
{
    match &item.media_ref {
        MediaRef::Catalog { key_symbol, track, issue_tag, .. } => {
            if str_eq_ignore_ascii_case(key_symbol.as_str(), "sjjm") {
                return None;
            }
            let issue = if *issue_tag == 0 {
                None
            } else {
                Some(normalize_issue_tag(*issue_tag))
            };
            Some(
                CatalogKey {
                    langwritten: owned(langwritten),
                    pub_symbol: key_symbol.clone(),
                    issue,
                    track: Some(*track),
                    format: CatalogFormat::Mp4,
                },
            )
        },
        MediaRef::Embedded { .. } => None,
    }
}

} // verus!
