use waywall::decoder::codes::AVERROR_EAGAIN;
use waywall::vaapi_converter::{
    convert_failure_text, failure_text, filter_name, instance_name, ConvertAction,
    ConvertError, ConvertEvent, GraphAction, GraphStep, VaapiConverter,
};

fn ready() -> VaapiConverter {
    let (mut c, mut action) = VaapiConverter::new(640, 360);
    while let GraphAction::Perform(_) = action {
        action = c.advance(true);
    }
    c
}

#[test]
fn the_graph_is_built_step_by_step() {
    let (mut c, mut action) = VaapiConverter::new(640, 360);
    let mut steps = Vec::new();
    while let GraphAction::Perform(step) = action {
        steps.push(step);
        assert!(!c.is_ready());
        action = c.advance(true);
    }
    assert_eq!(action, GraphAction::Ready);
    assert!(c.is_ready());
    assert_eq!(steps.len(), 12);
    assert_eq!(steps[0], GraphStep::AllocGraph);
    assert_eq!(steps[11], GraphStep::Configure);
}

#[test]
fn a_graph_that_fails_is_freed() {
    let (mut c, _) = VaapiConverter::new(640, 360);
    assert_eq!(
        c.advance(false),
        GraphAction::Fail { step: GraphStep::AllocGraph, free_graph: false }
    );
    let (mut c, _) = VaapiConverter::new(640, 360);
    c.advance(true);
    c.advance(true);
    c.advance(true);
    assert_eq!(c.advance(false), GraphAction::Perform(GraphStep::FindScale));
    assert_eq!(c.advance(false), GraphAction::Fail { step: GraphStep::FindScale, free_graph: true });
}

#[test]
fn filters_and_their_arguments() {
    let (mut c, mut action) = VaapiConverter::new(1920, 1080);
    let mut told = Vec::new();
    while let GraphAction::Perform(step) = action {
        if let Some(arguments) = c.arguments() {
            told.push((step, arguments));
        }
        assert_eq!(c.size(), (1920, 1080));
        action = c.advance(true);
    }
    assert_eq!(c.arguments(), None);
    let source =
        "video_size=1920x1080:pix_fmt=23:time_base=1/30:pixel_aspect=1/1:colorspace=bt709:range=tv";
    assert_eq!(
        told,
        vec![
            (GraphStep::CreateSource, source.to_string()),
            (GraphStep::CreateScale, "w=1920:h=1080:format=bgra".to_string()),
        ]
    );
    assert_eq!(filter_name(GraphStep::FindScale), Some("scale_vaapi"));
    assert_eq!(filter_name(GraphStep::Configure), None);
    assert_eq!(instance_name(GraphStep::CreateSource), Some("in"));
    assert_eq!(instance_name(GraphStep::CreateSink), Some("out"));
}

#[test]
fn what_is_said_of_a_graph_that_fails() {
    assert_eq!(failure_text(GraphStep::LinkSource, -22).unwrap(), "link src->scale failed: -22");
    assert_eq!(
        failure_text(GraphStep::FindSink, 0).unwrap(),
        "avfilter_get_by_name('buffersink') failed"
    );
    assert_eq!(failure_text(GraphStep::SetFormats, 0), None);
}

#[test]
fn a_frame_is_converted() {
    let (mut c, first) = ready().convert(false);
    assert_eq!(first, ConvertAction::AllocFrame);
    assert_eq!(c.advance(ConvertEvent::Allocated(true)), Some(ConvertAction::AddFrame));
    assert_eq!(c.advance(ConvertEvent::Returned(0)), Some(ConvertAction::GetFrame));
    assert_eq!(c.advance(ConvertEvent::Returned(0)), Some(ConvertAction::Ready));
    assert_eq!(c.advance(ConvertEvent::Returned(0)), None);
    assert_eq!(ready().convert(true).1, ConvertAction::AddFrame);
}

#[test]
fn a_conversion_that_fails_frees_its_frame() {
    let (mut c, _) = ready().convert(false);
    assert_eq!(
        c.advance(ConvertEvent::Allocated(false)),
        Some(ConvertAction::Fail { error: ConvertError::Alloc, free_frame: false })
    );
    let (mut c, _) = ready().convert(true);
    assert_eq!(
        c.advance(ConvertEvent::Returned(-5)),
        Some(ConvertAction::Fail { error: ConvertError::AddFrame(-5), free_frame: true })
    );
    for (ret, error) in [(AVERROR_EAGAIN, ConvertError::NeedsInput), (-9, ConvertError::GetFrame(-9))] {
        let (mut c, _) = ready().convert(true);
        c.advance(ConvertEvent::Returned(0));
        assert_eq!(
            c.advance(ConvertEvent::Returned(ret)),
            Some(ConvertAction::Fail { error, free_frame: true })
        );
    }
    assert_eq!(convert_failure_text(ConvertError::Alloc), "av_frame_alloc failed for convert!");
    assert_eq!(convert_failure_text(ConvertError::AddFrame(-5)), "buffersrc_add_frame failed: -5");
    assert_eq!(convert_failure_text(ConvertError::NeedsInput), "converter needs more input");
    assert_eq!(convert_failure_text(ConvertError::GetFrame(-9)), "buffersink_get_frame failed: -9");
}
