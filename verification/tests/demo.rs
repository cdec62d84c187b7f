use sw_cdp1802_io::board::cassette_stream_for;
use sw_cdp1802_io::kinds::{DemoKind, SCREEN_BYTES};
use sw_cdp1802_io::machine::DemoMachine;

/// The Add demo, assembled by hand: LDI 0x07; ADI 0x05; IDL.
fn add_program() -> Vec<u8> {
    vec![0xF8, 0x07, 0xFC, 0x05, 0x00]
}

/// The cassette loader, assembled by hand.
fn cassette_loader() -> Vec<u8> {
    vec![
        0xF8, 0x01, 0xB1, 0xF8, 0x00, 0xA1, 0xE1, 0x6C, 0xFB, 0xA5, 0x3A, 0x07, 0x6C, 0x11, 0x81,
        0x3A, 0x0C, 0x00,
    ]
}

/// A stand-in for the assembled logo page: an IDL and a recognisable picture.
fn logo_page() -> Vec<u8> {
    let mut page = vec![0u8; 256];
    page[0x5a] = 0xff;
    page
}

#[test]
fn included_program_stays_under_one_quarter_of_256_bytes() {
    let machine = DemoMachine::new(Ok(add_program()));

    assert!(
        machine.program_len < 64,
        "program length was {}",
        machine.program_len
    );
}

#[test]
fn demo_kinds_are_listed_alphabetically() {
    let labels: Vec<_> = DemoKind::all().iter().map(|kind| kind.label()).collect();

    assert_eq!(
        labels,
        vec!["Add", "Cassette", "Joystick", "Logo", "Pattern"]
    );
}

#[test]
fn default_demo_is_add() {
    let machine = DemoMachine::new(Ok(add_program()));

    assert_eq!(machine.kind, DemoKind::Add);
}

#[test]
fn every_demo_has_a_description() {
    for kind in DemoKind::all() {
        assert!(!kind.description().is_empty(), "{kind:?}");
    }
}

#[test]
fn joystick_description_ends_with_warning() {
    assert!(DemoKind::Joystick.description().ends_with(
        "WARNING: if you move the joystick up you will crash the ball into the running program corrupting it."
    ));
}

#[test]
fn cassette_demo_uses_4k_memory_and_video_page_at_0100() {
    let mut machine = DemoMachine::new(Ok(add_program()));

    machine.switch_demo(DemoKind::Cassette, Ok(cassette_loader()), &Some(logo_page()));

    assert_eq!(machine.memory.len(), 4096);
    assert_eq!(machine.memory_map.video_base, 0x0100);
    assert!(machine.program_len < 0x0100);
    assert_eq!(machine.screen_bytes(), vec![0; SCREEN_BYTES]);
}

#[test]
fn cassette_tape_holds_leader_sync_and_logo() {
    let tape = cassette_stream_for(DemoKind::Cassette, &Some(logo_page()));

    assert_eq!(tape.len(), 16 + 1 + 256);
    assert!(tape[..16].iter().all(|b| *b == 0));
    assert_eq!(tape[16], 0xa5);
    assert_eq!(tape[17 + 0x5a], 0xff);
    assert_eq!(tape[17..].to_vec(), logo_page());
}
