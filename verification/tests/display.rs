use riddle::display::{Display, DisplayAction, QtfbLink};
use riddle::rm1fb::{Rm1Framebuffer, UPDATE_MODE_FULL, WAVEFORM_DU, WAVEFORM_GC16};

fn rm1() -> Display {
    Display::Rm1(Rm1Framebuffer::from_screeninfo(4, 0, 2816))
}

#[test]
fn rm1_update_sends_request() {
    let mut d = rm1();
    match d.update(20, 30, 10, 10, true) {
        DisplayAction::Rm1Send(data) => {
            assert_eq!(data.update_region.left, 16);
            assert_eq!(data.update_region.top, 24);
            assert_eq!(data.update_region.width, 16);
            assert_eq!(data.update_region.height, 16);
            assert_eq!(data.waveform_mode, WAVEFORM_DU);
            assert_eq!(data.update_marker, 2);
        }
        other => panic!("unexpected {:?}", other),
    }
    assert_eq!(d.update(20, 30, 0, 10, true), DisplayAction::Nothing);
}

#[test]
fn rm1_whole_screen() {
    let mut d = rm1();
    match d.update_all(1404, 1872) {
        DisplayAction::Rm1Send(data) => {
            assert_eq!(data.update_region.width, 1404);
            assert_eq!(data.update_region.height, 1872);
            assert_eq!(data.update_marker, 2);
        }
        other => panic!("unexpected {:?}", other),
    }
    match d.full_refresh(0, 0) {
        DisplayAction::Rm1Send(data) => {
            assert_eq!(data.update_mode, UPDATE_MODE_FULL);
            assert_eq!(data.waveform_mode, WAVEFORM_GC16);
            assert_eq!(data.update_marker, 3);
        }
        other => panic!("unexpected {:?}", other),
    }
    assert_eq!(d.pump(), DisplayAction::Nothing);
    assert_eq!(d.terminate(), DisplayAction::Nothing);
}

#[test]
fn qtfb_actions() {
    let mut d = Display::Qtfb(QtfbLink { key: 245 });
    assert_eq!(d.update(1, 2, 3, 4, false), DisplayAction::QtfbUpdatePartial { x: 1, y: 2, w: 3, h: 4 });
    assert_eq!(d.update(1, 2, -3, 4, false), DisplayAction::QtfbUpdatePartial { x: 1, y: 2, w: -3, h: 4 });
    assert_eq!(d.update_all(1404, 1872), DisplayAction::QtfbUpdateAll);
    assert_eq!(d.full_refresh(1404, 1872), DisplayAction::QtfbFullRefresh);
    assert_eq!(d.pump(), DisplayAction::QtfbDrainEvents);
    assert_eq!(d.terminate(), DisplayAction::QtfbTerminate);
}
