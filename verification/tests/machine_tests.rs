use chip8::{handle_input, init_chip8, tick_timers, Chip8, LoadError};

#[test]
fn init_places_font_and_program() {
    let chip8 = init_chip8(vec![0xA2, 0x02, 0x60, 0x0A]).unwrap();
    assert_eq!(&chip8.memory[0..5], &[0xF0, 0x90, 0x90, 0x90, 0xF0]);
    assert_eq!(&chip8.memory[5..10], &[0x20, 0x60, 0x20, 0x20, 0x70]);
    assert_eq!(&chip8.memory[75..80], &[0xF0, 0x80, 0xF0, 0x80, 0x80]);
    assert!(chip8.memory[80..0x200].iter().all(|b| *b == 0));
    assert_eq!(&chip8.memory[0x200..0x204], &[0xA2, 0x02, 0x60, 0x0A]);
    assert!(chip8.memory[0x204..].iter().all(|b| *b == 0));
    assert_eq!(chip8.pc, 0x200);
    assert_eq!(chip8.i, 0);
    assert_eq!(chip8.sp, 0);
    assert_eq!(chip8.delay_timer, 0);
    assert_eq!(chip8.sound_timer, 0);
    assert!(chip8.v.iter().all(|b| *b == 0));
    assert!(chip8.gfx.iter().all(|b| *b == 0));
    assert!(chip8.stack.iter().all(|b| *b == 0));
    assert!(chip8.key.iter().all(|b| *b == 0));
}

#[test]
fn init_with_empty_program() {
    let chip8 = init_chip8(Vec::new()).unwrap();
    assert!(chip8.memory[80..].iter().all(|b| *b == 0));
    assert_eq!(chip8.memory[0], 0xF0);
}

#[test]
fn init_accepts_largest_program() {
    let chip8 = init_chip8(vec![0xAB; 3584]).unwrap();
    assert_eq!(chip8.memory[0x200], 0xAB);
    assert_eq!(chip8.memory[4095], 0xAB);
    assert_eq!(chip8.memory[0x1FF], 0);
}

#[test]
fn init_refuses_oversized_program() {
    assert!(matches!(init_chip8(vec![0; 3585]), Err(LoadError::ProgramTooLarge)));
}

#[test]
fn new_machine_is_blank() {
    let chip8 = Chip8::new();
    assert!(chip8.memory.iter().all(|b| *b == 0));
    assert_eq!(chip8.pc, 0x200);
}

#[test]
fn load_font_writes_only_the_font() {
    let mut chip8 = Chip8::new();
    chip8.memory[80] = 0x77;
    chip8.load_font();
    assert_eq!(chip8.memory[0], 0xF0);
    assert_eq!(chip8.memory[79], 0x80);
    assert_eq!(chip8.memory[80], 0x77);
}

#[test]
fn load_program_refuses_and_leaves_memory() {
    let mut chip8 = Chip8::new();
    let big = vec![1u8; 4000];
    assert_eq!(chip8.load_program(&big), Err(LoadError::ProgramTooLarge));
    assert!(chip8.memory.iter().all(|b| *b == 0));
    assert_eq!(chip8.load_program(&[9, 8, 7]), Ok(()));
    assert_eq!(&chip8.memory[0x200..0x204], &[9, 8, 7, 0]);
}

#[test]
fn handle_input_overwrites_keypad() {
    let mut chip8 = init_chip8(Vec::new()).unwrap();
    chip8.key = [1; 16];
    let mut down = [false; 16];
    down[0] = true;
    down[9] = true;
    down[15] = true;
    handle_input(&mut chip8, &down);
    let mut expected = [0u8; 16];
    expected[0] = 1;
    expected[9] = 1;
    expected[15] = 1;
    assert_eq!(chip8.key, expected);
    assert_eq!(chip8.pc, 0x200);
}

#[test]
fn tick_counts_down_and_stops_at_zero() {
    let mut chip8 = init_chip8(Vec::new()).unwrap();
    chip8.delay_timer = 2;
    chip8.sound_timer = 2;
    assert!(!tick_timers(&mut chip8));
    assert_eq!((chip8.delay_timer, chip8.sound_timer), (1, 1));
    assert!(tick_timers(&mut chip8));
    assert_eq!((chip8.delay_timer, chip8.sound_timer), (0, 0));
    assert!(!tick_timers(&mut chip8));
    assert_eq!((chip8.delay_timer, chip8.sound_timer), (0, 0));
}
