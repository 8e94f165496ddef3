use pinpoint::deck::BackgroundType;
use pinpoint::export::{BackgroundStep, Exporter};

#[test]
fn export_reuses_rasters_and_bounds_svg_documents() {
    let mut export = Exporter::new(12);
    assert_eq!(export.background_step(BackgroundType::Image, false, 1), BackgroundStep::Nothing);
    assert_eq!(export.background_step(BackgroundType::Color, true, 0), BackgroundStep::Paint);
    assert_eq!(export.background_step(BackgroundType::Camera, true, 0), BackgroundStep::Nothing);
    assert_eq!(export.background_step(BackgroundType::Image, true, 1), BackgroundStep::LoadImage(1));
    export.raster_drawn(1, 4000, true);
    assert_eq!(export.background_step(BackgroundType::Image, true, 1), BackgroundStep::DrawRaster);
    export.raster_drawn(1, 4000, true);
    assert_eq!(export.stats.jpeg_sources, 2);
    assert_eq!(export.background_step(BackgroundType::Video, true, 2), BackgroundStep::LoadVideo(2));
    export.video_failed(2);
    assert_eq!(export.background_step(BackgroundType::Video, true, 2), BackgroundStep::SkipVideo);
    for key in 10..18 {
        assert_eq!(export.background_step(BackgroundType::Svg, true, key), BackgroundStep::LoadSvg { key, evict: None });
        export.svg_drawn(key, true, None);
    }
    assert_eq!(export.background_step(BackgroundType::Svg, true, 12), BackgroundStep::DrawSvg(12));
    let step = export.background_step(BackgroundType::Svg, true, 30);
    assert_eq!(step, BackgroundStep::LoadSvg { key: 30, evict: Some(10) });
    export.svg_drawn(30, true, Some(10));
    assert_eq!(export.svg.len(), 8);
    assert_eq!(export.background_step(BackgroundType::Svg, true, 10), BackgroundStep::LoadSvg { key: 10, evict: Some(11) });
    export.slide_written(true, true);
    export.slide_written(true, false);
    export.slide_written(false, true);
    assert_eq!(export.stats.pages, 4);
    assert_eq!(export.stats.svg_documents, 9);
    assert_eq!(export.stats.video_failures, 1);
    assert_eq!(export.stats.raster_peak_bytes, 4000);
}
