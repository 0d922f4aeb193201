use ai_surfer::ids::{AgentId, StepId};
use ai_surfer::screenshot::{screenshot_extension, uuid_string, FolderScreenshotSink, ScreenshotFormat, StepScreenshotRequest};

fn request(agent: AgentId, step: u32, format: ScreenshotFormat) -> StepScreenshotRequest {
    StepScreenshotRequest { agent, step: StepId(step), format }
}

#[test]
fn test_path_for_uses_jpeg_extension_when_format_is_jpeg() {
    let sink = FolderScreenshotSink::new("/tmp/ras-shots".to_string());
    let agent = AgentId::new();
    let path = sink.path_for(request(agent, 12, ScreenshotFormat::Jpeg));
    let expected = std::path::PathBuf::from("/tmp/ras-shots")
        .join(uuid::Uuid::from_u128(agent.0).to_string())
        .join("step-0012.jpeg");
    assert_eq!(std::path::PathBuf::from(path), expected);
}

#[test]
fn test_steps_are_zero_padded_so_names_sort_lexicographically() {
    let sink = FolderScreenshotSink::new("/tmp/ras-shots".to_string());
    let agent = AgentId::new();
    let early = sink.path_for(request(agent, 2, ScreenshotFormat::Png));
    let late = sink.path_for(request(agent, 10, ScreenshotFormat::Png));
    assert!(early < late);
}

#[test]
fn uuid_text_matches_the_uuid_crate() {
    for bits in [0u128, 1, u128::MAX, 0x67e5_5044_10b1_426f_9247_bb68_0e5f_e0c8] {
        assert_eq!(uuid_string(bits), uuid::Uuid::from_u128(bits).to_string());
    }
}

#[test]
fn root_trailing_slash_and_wide_steps() {
    let sink = FolderScreenshotSink::new("shots/".to_string());
    assert_eq!(sink.root(), "shots/");
    let p = sink.path_for(request(AgentId(0), 123456, ScreenshotFormat::Png));
    assert_eq!(p, "shots/00000000-0000-0000-0000-000000000000/step-123456.png");
    let empty = FolderScreenshotSink::new(String::new());
    assert_eq!(empty.path_for(request(AgentId(0), 0, ScreenshotFormat::Jpeg)), "00000000-0000-0000-0000-000000000000/step-0000.jpeg");
}

#[test]
fn extensions() {
    assert_eq!(screenshot_extension(ScreenshotFormat::Png), "png");
    assert_eq!(screenshot_extension(ScreenshotFormat::Jpeg), "jpeg");
    assert_eq!(ScreenshotFormat::default(), ScreenshotFormat::Png);
}

#[test]
fn screenshot_paths_sort_by_step() {
    let sink = FolderScreenshotSink::new("/tmp/ras-shots".to_string());
    let agent = AgentId(0x1234);
    let mut last = String::new();
    for step in [0u32, 1, 9, 10, 99, 100, 999, 1000, 9999] {
        let p = sink.path_for(StepScreenshotRequest { agent, step: StepId(step), format: ScreenshotFormat::Png });
        assert!(last < p, "{last} < {p}");
        last = p;
    }
}
