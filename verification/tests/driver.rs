use chip8::emulator::{Emulator, FrameOutcome, HostEvent, DEFAULT_INSTRUCTIONS_PER_FRAME};
use chip8::fault::Fault;

const PAGE_UP: i32 = 1073741899;
const PAGE_DOWN: i32 = 1073741902;

#[test]
fn default_pace_is_fifty_instructions_per_frame() {
    assert_eq!(DEFAULT_INSTRUCTIONS_PER_FRAME, 50);
    assert_eq!(Emulator::new(None).instructions_per_frame(), 50);
    assert_eq!(Emulator::new(Some(7)).instructions_per_frame(), 7);
    assert_eq!(Emulator::new(Some(0)).instructions_per_frame(), 0);
}

#[test]
fn new_driver_holds_a_machine_at_reset() {
    let emulator = Emulator::new(None);
    assert_eq!(emulator.cpu().program_counter(), 0x200);
    assert_eq!(emulator.keypad().first_pressed(), None);
}

#[test]
fn load_places_font_and_program() {
    let mut emulator = Emulator::new(None);
    assert_eq!(emulator.load(&[0xAB, 0xCD]), Ok(()));
    assert_eq!(emulator.cpu().ram().read(0, 2).unwrap(), &[0xF0, 0x90]);
    assert_eq!(emulator.cpu().ram().read(0x200, 2).unwrap(), &[0xAB, 0xCD]);
}

#[test]
fn load_rejects_an_image_that_does_not_fit() {
    let mut emulator = Emulator::new(None);
    let image = vec![1u8; 3585];
    assert_eq!(
        emulator.load(&image),
        Err(Fault::MemoryOutOfBounds { address: 0x200, count: 3585 })
    );
    assert_eq!(emulator.cpu().ram().read(0, 2).unwrap(), &[0xF0, 0x90]);
    assert_eq!(emulator.cpu().ram().read(0x200, 2).unwrap(), &[0, 0]);
}

#[test]
fn key_events_move_the_key_levels() {
    let mut emulator = Emulator::new(None);
    let quit = emulator.process_events(&[
        HostEvent::KeyDown { keycode: 52 },
        HostEvent::KeyDown { keycode: 98 },
        HostEvent::KeyDown { keycode: 120 },
        HostEvent::KeyUp { keycode: 52 },
    ]);
    assert!(!quit);
    assert_eq!(emulator.keypad().is_key_pressed(4), Ok(false));
    assert_eq!(emulator.keypad().is_key_pressed(0xB), Ok(true));
    assert_eq!(emulator.keypad().first_pressed(), Some(0xB));
    assert_eq!(emulator.instructions_per_frame(), 50);
}

#[test]
fn page_keys_tune_the_pace() {
    let mut emulator = Emulator::new(Some(2));
    emulator.process_events(&[HostEvent::KeyDown { keycode: PAGE_UP }]);
    assert_eq!(emulator.instructions_per_frame(), 3);
    emulator.process_events(&[
        HostEvent::KeyDown { keycode: PAGE_DOWN },
        HostEvent::KeyDown { keycode: PAGE_DOWN },
    ]);
    assert_eq!(emulator.instructions_per_frame(), 1);
    emulator.process_events(&[HostEvent::KeyDown { keycode: PAGE_DOWN }]);
    assert_eq!(emulator.instructions_per_frame(), 1);
    emulator.process_events(&[
        HostEvent::KeyUp { keycode: PAGE_UP },
        HostEvent::KeyUp { keycode: PAGE_DOWN },
    ]);
    assert_eq!(emulator.instructions_per_frame(), 1);
    assert_eq!(emulator.keypad().first_pressed(), None);
}

#[test]
fn pace_stays_at_its_limits() {
    let mut top = Emulator::new(Some(usize::MAX));
    top.process_events(&[HostEvent::KeyDown { keycode: PAGE_UP }]);
    assert_eq!(top.instructions_per_frame(), usize::MAX);
    let mut bottom = Emulator::new(Some(0));
    bottom.process_events(&[HostEvent::KeyDown { keycode: PAGE_DOWN }]);
    assert_eq!(bottom.instructions_per_frame(), 0);
}

#[test]
fn quit_stops_the_intake_of_events() {
    let mut emulator = Emulator::new(None);
    let quit = emulator.process_events(&[
        HostEvent::KeyDown { keycode: 49 },
        HostEvent::Quit,
        HostEvent::KeyDown { keycode: 50 },
        HostEvent::KeyDown { keycode: PAGE_UP },
    ]);
    assert!(quit);
    assert_eq!(emulator.keypad().is_key_pressed(1), Ok(true));
    assert_eq!(emulator.keypad().is_key_pressed(2), Ok(false));
    assert_eq!(emulator.instructions_per_frame(), 50);
    assert!(!emulator.process_events(&[]));
}

#[test]
fn frame_runs_the_pace_then_ends_the_frame() {
    let mut emulator = Emulator::new(Some(3));
    emulator.load(&[0x61, 0x05, 0xF1, 0x18, 0xF1, 0x15, 0x62, 0x01]).unwrap();
    assert_eq!(emulator.frame(&[]), Ok(FrameOutcome::Present { tone: true }));
    assert_eq!(emulator.cpu().program_counter(), 0x206);
    assert_eq!(emulator.cpu().sound_timer(), 4);
    assert_eq!(emulator.cpu().delay_timer(), 4);
    assert_eq!(emulator.cpu().register(2), 0);
}

#[test]
fn frame_on_quit_executes_nothing() {
    let mut emulator = Emulator::new(Some(3));
    emulator.load(&[0x61, 0x05, 0xF1, 0x18]).unwrap();
    assert_eq!(
        emulator.frame(&[HostEvent::KeyDown { keycode: 48 }, HostEvent::Quit]),
        Ok(FrameOutcome::Quit)
    );
    assert_eq!(emulator.cpu().program_counter(), 0x200);
    assert_eq!(emulator.cpu().register(1), 0);
    assert_eq!(emulator.keypad().is_key_pressed(0), Ok(true));
}

#[test]
fn frame_feeds_the_keys_to_the_machine() {
    let mut emulator = Emulator::new(Some(1));
    emulator.load(&[0xF3, 0x0A]).unwrap();
    assert_eq!(emulator.frame(&[]), Ok(FrameOutcome::Present { tone: false }));
    assert_eq!(emulator.cpu().program_counter(), 0x200);
    assert_eq!(
        emulator.frame(&[HostEvent::KeyDown { keycode: 99 }]),
        Ok(FrameOutcome::Present { tone: false })
    );
    assert_eq!(emulator.cpu().register(3), 0xC);
    assert_eq!(emulator.cpu().program_counter(), 0x202);
}

#[test]
fn frame_reports_a_fault() {
    let mut emulator = Emulator::new(Some(5));
    emulator.load(&[0x00, 0xEE]).unwrap();
    assert_eq!(emulator.frame(&[]), Err(Fault::StackUnderflow));
}

#[test]
fn tone_follows_the_sound_timer_over_frames() {
    let mut emulator = Emulator::new(Some(2));
    emulator.load(&[0x61, 0x03, 0xF1, 0x18, 0x12, 0x04]).unwrap();
    assert_eq!(emulator.frame(&[]), Ok(FrameOutcome::Present { tone: true }));
    assert_eq!(emulator.frame(&[]), Ok(FrameOutcome::Present { tone: true }));
    assert_eq!(emulator.frame(&[]), Ok(FrameOutcome::Present { tone: false }));
    assert_eq!(emulator.frame(&[]), Ok(FrameOutcome::Present { tone: false }));
    assert_eq!(emulator.cpu().sound_timer(), 0);
}

#[test]
fn refresh_paints_the_machine_framebuffer() {
    let mut emulator = Emulator::new(Some(2));
    emulator.load(&[0xA0, 0x05, 0xD0, 0x05]).unwrap();
    assert_eq!(emulator.frame(&[]), Ok(FrameOutcome::Present { tone: false }));
    let rectangles = emulator.refresh(128, 64);
    assert_eq!(rectangles.len(), 8);
    assert_eq!((rectangles[0].x, rectangles[0].y), (4, 0));
    assert_eq!((rectangles[0].width, rectangles[0].height), (2, 2));
}
