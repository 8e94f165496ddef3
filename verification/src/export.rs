//! The PDF export run: what each slide's background needs (drawing from a
//! cache, loading, or skipping a video that failed before), the caches kept
//! between slides, and the counters reported at the end.
use vstd::prelude::*;
use crate::deck::BackgroundType;

verus! {

/// At most this many parsed SVG documents are kept while exporting.
pub const MAX_EXPORT_SVG_CACHE: usize = 8;

/// What an export reports.
#[derive(Clone, Copy, Debug, PartialEq, Eq, Structural)]
pub struct ExportStats {
    pub slides: usize,
    pub pages: usize,
    pub jpeg_sources: usize,
    pub raster_peak_bytes: u64,
    pub svg_documents: usize,
    pub video_thumbnails: usize,
    pub video_failures: usize,
}

/// What to do for one slide's background.
#[derive(Clone, Copy, Debug, PartialEq, Eq, Structural)]
pub enum BackgroundStep {
    /// No background to draw (none, a camera, or no asset named).
    Nothing,
    /// Paint the colour.
    Paint,
    /// Draw the raster already loaded.
    DrawRaster,
    /// Load this image (replacing the raster kept), then draw it.
    LoadImage(u64),
    /// Draw this SVG document, already parsed.
    DrawSvg(u64),
    /// Parse this SVG document, after dropping the one named where the
    /// cache is full, then draw it.
    LoadSvg { key: u64, evict: Option<u64> },
    /// Make a thumbnail of this video (replacing the raster kept), then draw it.
    LoadVideo(u64),
    /// The video failed before: draw nothing.
    SkipVideo,
}

/// The caches an export keeps between slides, and its counters.
#[derive(Clone, Debug)]
pub struct Exporter {
    /// The asset whose raster (image or video thumbnail) is loaded.
    pub raster: Option<u64>,
    /// The parsed SVG documents, oldest first.
    pub svg: Vec<u64>,
    /// Videos whose thumbnail failed.
    pub failed_videos: Vec<u64>,
    pub stats: ExportStats,
}

/// The step for a background of type `kind`, where the slide names an asset
/// (`named`) that resolved to `key`.
pub open spec fn step_spec(e: Exporter, kind: BackgroundType, named: bool, key: u64) -> BackgroundStep {
    if !named {
        BackgroundStep::Nothing
    } else if kind == BackgroundType::Color {
        BackgroundStep::Paint
    } else if kind == BackgroundType::Image {
        if e.raster == Some(key) { BackgroundStep::DrawRaster } else { BackgroundStep::LoadImage(key) }
    } else if kind == BackgroundType::Svg {
        if e.svg@.contains(key) {
            BackgroundStep::DrawSvg(key)
        } else {
            BackgroundStep::LoadSvg {
                key,
                evict: if e.svg@.len() >= MAX_EXPORT_SVG_CACHE && e.svg@.len() > 0 { Some(e.svg@[0]) } else { None },
            }
        }
    } else if kind == BackgroundType::Video {
        if e.failed_videos@.contains(key) {
            BackgroundStep::SkipVideo
        } else if e.raster == Some(key) {
            BackgroundStep::DrawRaster
        } else {
            BackgroundStep::LoadVideo(key)
        }
    } else {
        BackgroundStep::Nothing
    }
}

fn contains(v: &Vec<u64>, key: u64) -> (r: bool)
    ensures
        r == v@.contains(key),
{
    let mut i: usize = 0;
    while i < v.len()
        invariant
            i <= v@.len(),
            forall|j: int| 0 <= j < i ==> v@[j] != key,
        decreases v@.len() - i,
    {
        if v[i] == key {
            assert(v@[i as int] == key);
            return true;
        }
        i += 1;
    }
    false
}

impl Exporter {
    /// An export of `slides` slides, with nothing loaded.
    pub fn new(slides: usize) -> (e: Exporter)
        ensures
            e.raster is None,
            e.svg@.len() == 0,
            e.failed_videos@.len() == 0,
            e.stats == (ExportStats {
                slides,
                pages: 0,
                jpeg_sources: 0,
                raster_peak_bytes: 0,
                svg_documents: 0,
                video_thumbnails: 0,
                video_failures: 0,
            }),
    {
        Exporter {
            raster: None,
            svg: Vec::new(),
            failed_videos: Vec::new(),
            stats: ExportStats {
                slides,
                pages: 0,
                jpeg_sources: 0,
                raster_peak_bytes: 0,
                svg_documents: 0,
                video_thumbnails: 0,
                video_failures: 0,
            },
        }
    }

    /// What the slide's background needs (see `step_spec`).
    pub fn background_step(&self, kind: BackgroundType, named: bool, key: u64) -> (s: BackgroundStep)
        ensures
            s == step_spec(*self, kind, named, key),
    {
        if !named {
            return BackgroundStep::Nothing;
        }
        match kind {
            BackgroundType::Color => BackgroundStep::Paint,
            BackgroundType::Image => {
                if self.raster == Some(key) { BackgroundStep::DrawRaster } else { BackgroundStep::LoadImage(key) }
            },
            BackgroundType::Svg => {
                if contains(&self.svg, key) {
                    BackgroundStep::DrawSvg(key)
                } else {
                    let evict = if self.svg.len() >= MAX_EXPORT_SVG_CACHE && self.svg.len() > 0 {
                        Some(self.svg[0])
                    } else {
                        None
                    };
                    BackgroundStep::LoadSvg { key, evict }
                }
            },
            BackgroundType::Video => {
                if contains(&self.failed_videos, key) {
                    BackgroundStep::SkipVideo
                } else if self.raster == Some(key) {
                    BackgroundStep::DrawRaster
                } else {
                    BackgroundStep::LoadVideo(key)
                }
            },
            _ => BackgroundStep::Nothing,
        }
    }

    /// The raster of `key`, of `bytes` bytes, was drawn (`jpeg` where it
    /// came from a JPEG image): it is the raster kept, the peak raster size
    /// grows to it, and JPEG sources are counted per page.
    pub fn raster_drawn(&mut self, key: u64, bytes: u64, jpeg: bool)
        requires
            old(self).stats.jpeg_sources < usize::MAX,
        ensures
            final(self).raster == Some(key),
            final(self).stats == (ExportStats {
                raster_peak_bytes: if bytes > old(self).stats.raster_peak_bytes { bytes } else { old(self).stats.raster_peak_bytes },
                jpeg_sources: (old(self).stats.jpeg_sources + (if jpeg { 1usize } else { 0usize })) as usize,
                ..old(self).stats
            }),
            final(self).svg == old(self).svg,
            final(self).failed_videos == old(self).failed_videos,
    {
        self.raster = Some(key);
        if bytes > self.stats.raster_peak_bytes {
            self.stats.raster_peak_bytes = bytes;
        }
        if jpeg {
            self.stats.jpeg_sources = self.stats.jpeg_sources + 1;
        }
    }

    /// A video thumbnail was drawn: it counts as one.
    pub fn thumbnail_drawn(&mut self)
        requires
            old(self).stats.video_thumbnails < usize::MAX,
        ensures
            final(self).stats == (ExportStats { video_thumbnails: (old(self).stats.video_thumbnails + 1) as usize, ..old(self).stats }),
            final(self).raster == old(self).raster,
            final(self).svg == old(self).svg,
            final(self).failed_videos == old(self).failed_videos,
    {
        self.stats.video_thumbnails = self.stats.video_thumbnails + 1;
    }

    /// The thumbnail of video `key` failed: it is not tried again.
    pub fn video_failed(&mut self, key: u64)
        requires
            old(self).stats.video_failures < usize::MAX,
        ensures
            final(self).failed_videos@ == old(self).failed_videos@.push(key),
            final(self).stats == (ExportStats { video_failures: (old(self).stats.video_failures + 1) as usize, ..old(self).stats }),
            final(self).raster == old(self).raster,
            final(self).svg == old(self).svg,
    {
        self.failed_videos.push(key);
        self.stats.video_failures = self.stats.video_failures + 1;
    }

    /// The SVG document `key` was drawn after the step said how (`parsed`
    /// where it was just parsed, dropping `evict` first).
    pub fn svg_drawn(&mut self, key: u64, parsed: bool, evict: Option<u64>)
        requires
            old(self).stats.svg_documents < usize::MAX,
        ensures
            final(self).svg@ == (if parsed {
                (match evict {
                    Some(k) => if old(self).svg@.len() > 0 && old(self).svg@[0] == k { old(self).svg@.drop_first() } else { old(self).svg@ },
                    None => old(self).svg@,
                }).push(key)
            } else {
                old(self).svg@
            }),
            final(self).stats == (ExportStats { svg_documents: (old(self).stats.svg_documents + 1) as usize, ..old(self).stats }),
            final(self).raster == old(self).raster,
            final(self).failed_videos == old(self).failed_videos,
    {
        if parsed {
            if let Some(k) = evict {
                if self.svg.len() > 0 && self.svg[0] == k {
                    self.svg.remove(0);
                    assert(self.svg@ =~= old(self).svg@.drop_first());
                }
            }
            self.svg.push(key);
        }
        self.stats.svg_documents = self.stats.svg_documents + 1;
    }

    /// A slide's page was written, followed by a notes page where speaker
    /// notes are included and the slide has notes.
    pub fn slide_written(&mut self, include_notes: bool, has_notes: bool)
        requires
            old(self).stats.pages < usize::MAX - 1,
        ensures
            final(self).stats == (ExportStats {
                pages: (old(self).stats.pages + 1 + (if include_notes && has_notes { 1usize } else { 0usize })) as usize,
                ..old(self).stats
            }),
            final(self).raster == old(self).raster,
            final(self).svg == old(self).svg,
            final(self).failed_videos == old(self).failed_videos,
    {
        self.stats.pages = self.stats.pages + 1;
        if include_notes && has_notes {
            self.stats.pages = self.stats.pages + 1;
        }
    }
}

/// The SVG cache never holds more documents than its limit, whatever the
/// sequence of steps, as long as each parse follows the step's eviction.
pub proof fn law_svg_cache_is_bounded(e: Exporter, key: u64)
    requires
        e.svg@.len() <= MAX_EXPORT_SVG_CACHE,
        step_spec(e, BackgroundType::Svg, true, key) is LoadSvg,
    ensures
        ({
            let evict = step_spec(e, BackgroundType::Svg, true, key)->LoadSvg_evict;
            let kept = match evict {
                Some(k) => if e.svg@.len() > 0 && e.svg@[0] == k { e.svg@.drop_first() } else { e.svg@ },
                None => e.svg@,
            };
            kept.push(key).len() <= MAX_EXPORT_SVG_CACHE
        }),
{
}

} // verus!
