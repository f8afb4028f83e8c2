use rumiga::copper::{CopperAction, CopperExecState, CopperState};

fn make_chip_ram(instructions: &[(u16, u16)]) -> Vec<u8> {
    let mut ram = Vec::new();
    for &(w1, w2) in instructions {
        ram.extend_from_slice(&w1.to_be_bytes());
        ram.extend_from_slice(&w2.to_be_bytes());
    }
    ram
}

fn enabled_copper(chip_ram: &[(u16, u16)]) -> (CopperState, Vec<u8>) {
    let ram = make_chip_ram(chip_ram);
    let mut copper = CopperState::new();
    copper.enabled = true;
    copper.state = CopperExecState::FetchFirst;
    (copper, ram)
}

#[test]
fn move_writes_correct_register_and_value() {
    let (mut copper, ram) = enabled_copper(&[(0x0180, 0x0ABC)]);
    assert_eq!(copper.cycle(&ram, 0, 0), None);
    assert_eq!(copper.cycle(&ram, 0, 0), None);
    let action = copper.cycle(&ram, 0, 0);
    assert_eq!(
        action,
        Some(CopperAction::WriteRegister {
            offset: 0x0180,
            value: 0x0ABC,
        })
    );
}

#[test]
fn empty_chip_ram_reads_as_zero() {
    let mut copper = CopperState::new();
    copper.enabled = true;
    copper.state = CopperExecState::FetchFirst;

    assert_eq!(copper.cycle(&[], 0, 0), None);
    assert_eq!(copper.ir1, 0);
}

#[test]
fn move_blocked_when_offset_below_40_and_no_danger() {
    let (mut copper, ram) = enabled_copper(&[(0x002E, 0x0002)]);
    copper.cycle(&ram, 0, 0);
    copper.cycle(&ram, 0, 0);
    let action = copper.cycle(&ram, 0, 0);
    assert_eq!(action, None);
}

#[test]
fn move_allowed_below_40_with_danger() {
    let (mut copper, ram) = enabled_copper(&[(0x002E, 0x0002)]);
    copper.danger = true;

    copper.cycle(&ram, 0, 0);
    copper.cycle(&ram, 0, 0);
    let action = copper.cycle(&ram, 0, 0);
    assert_eq!(
        action,
        Some(CopperAction::WriteRegister {
            offset: 0x002E,
            value: 0x0002,
        })
    );
}

#[test]
fn wait_blocks_until_beam_matches() {
    let ir1: u16 = (100 << 8) | 1;
    let ir2: u16 = (0x7F << 8) | (0x7F << 1);
    let (mut copper, ram) = enabled_copper(&[(ir1, ir2)]);

    copper.cycle(&ram, 0, 0);
    copper.cycle(&ram, 0, 0);

    assert_eq!(copper.cycle(&ram, 50, 0), None);
    assert_eq!(copper.state, CopperExecState::Execute);

    assert_eq!(copper.cycle(&ram, 100, 0), None);
    assert_eq!(copper.state, CopperExecState::FetchFirst);
}

#[test]
fn wait_passes_when_beam_already_past() {
    let ir1: u16 = (50 << 8) | (10 << 1) | 1;
    let ir2: u16 = (0x7F << 8) | (0x7F << 1);
    let (mut copper, ram) = enabled_copper(&[(ir1, ir2)]);

    copper.cycle(&ram, 0, 0);
    copper.cycle(&ram, 0, 0);

    assert_eq!(copper.cycle(&ram, 200, 50), None);
    assert_eq!(copper.state, CopperExecState::FetchFirst);
}

#[test]
fn end_of_list_never_completes() {
    let (mut copper, ram) = enabled_copper(&[(0xFFFF, 0xFFFE)]);

    copper.cycle(&ram, 0, 0);
    copper.cycle(&ram, 0, 0);

    assert_eq!(copper.cycle(&ram, 255, 100), None);
    assert_eq!(copper.state, CopperExecState::Execute);

    assert_eq!(copper.cycle(&ram, 311, 113), None);
    assert_eq!(copper.state, CopperExecState::Execute);
}

#[test]
fn end_of_list_holds_at_the_last_beam_positions() {
    let (mut copper, ram) = enabled_copper(&[(0xFFFF, 0xFFFE)]);
    copper.cycle(&ram, 0, 0);
    copper.cycle(&ram, 0, 0);
    let pc = copper.pc;
    assert_eq!(copper.cycle(&ram, 255, 127), None);
    assert_eq!(copper.state, CopperExecState::Execute);
    assert_eq!(copper.cycle(&ram, 311, 226), None);
    assert_eq!(copper.state, CopperExecState::Execute);
    assert_eq!(copper.pc, pc);
}

#[test]
fn skip_advances_pc_when_condition_met() {
    let ir1: u16 = 1;
    let ir2: u16 = (0x7F << 8) | (0x7F << 1) | 1;
    let (mut copper, ram) = enabled_copper(&[(ir1, ir2), (0x0180, 0x0FFF)]);

    copper.cycle(&ram, 10, 10);
    copper.cycle(&ram, 10, 10);

    let pc_before = copper.pc;
    assert_eq!(copper.cycle(&ram, 10, 10), None);
    assert_eq!(copper.state, CopperExecState::FetchFirst);
    assert_eq!(copper.pc, pc_before + 4);
}

#[test]
fn vertical_blank_restart_resets_pc() {
    let mut copper = CopperState::new();
    copper.set_cop1lc(0x0000, 0x1000);
    copper.pc = 0x5000;
    copper.state = CopperExecState::Execute;

    copper.restart_vertical_blank();

    assert_eq!(copper.pc, 0x0000_1000);
    assert_eq!(copper.state, CopperExecState::FetchFirst);
}

#[test]
fn strobe_cop2_jumps_to_second_list() {
    let mut copper = CopperState::new();
    copper.set_cop2lc(0x0001, 0x2000);
    copper.strobe_cop2();
    assert_eq!(copper.pc, 0x0001_2000);
    assert_eq!(copper.state, CopperExecState::FetchFirst);
}

#[test]
fn disabled_copper_does_nothing() {
    let ram = make_chip_ram(&[(0x0180, 0x0ABC)]);
    let mut copper = CopperState::new();
    copper.state = CopperExecState::FetchFirst;
    assert_eq!(copper.cycle(&ram, 0, 0), None);
    assert_eq!(copper.pc, 0);
}
