use vertify::gui::{Phase, VertifyApp};
use vertify::ProbeInfo;

#[test]
fn phases_match_fixture_setup() {
    let mut app = VertifyApp::with_tools(Ok(()));
    app.headless = true;
    assert_eq!(app.phase, Phase::Idle);
    app.apply_loaded(
        "fixture_landscape.mp4".to_string(),
        ProbeInfo {
            width: 160,
            height: 90,
            duration_ms: 12000,
        },
    );
    assert_eq!(app.phase, Phase::Ready);
}
