use dmx_console::executor::Cue;
use dmx_console::osc::{
    find_executor, handle_osc, handle_osc_at, ignored_arguments, is_osc_address, read_level,
    settle, Control, Error, OSCManager, OSCNaming, OscArg, OscMessage, OscPacket, MAX_DATAGRAM,
};
use dmx_console::ui::ConsoleState;

fn message(addr: &str, args: Vec<OscArg>) -> Option<OscPacket> {
    Some(OscPacket::Message(OscMessage { addr: addr.to_string(), args }))
}

fn float(x: f32) -> OscArg {
    OscArg::Float(x.to_bits())
}

fn double(x: f64) -> OscArg {
    OscArg::Double(x.to_bits())
}

#[test]
fn default_addresses() {
    let n = OSCNaming::default();
    assert_eq!(n.master_volume, "/MasterVolume");
    assert_eq!(n.master_dmx, "/MasterDMX");
    assert_eq!(n.executor_identifier, "/Executor");
    assert_eq!(n.executor_dimmer, "/Dimmer");
    assert_eq!(n.executor_go, "/Go");
    assert_eq!(n.executor_go_back, "/GoBack");
}

#[test]
fn address_match_is_exact() {
    let m = message("/MasterVolume", vec![]);
    assert!(is_osc_address(&m, "/MasterVolume"));
    assert!(!is_osc_address(&m, "/mastervolume"));
    assert!(!is_osc_address(&m, "/MasterVolume/"));
    assert!(!is_osc_address(&Some(OscPacket::Bundle), "/MasterVolume"));
    assert!(!is_osc_address(&None, "/MasterVolume"));
}

#[test]
fn volume_takes_floats_up_to_one_and_a_half() {
    let mut state = ConsoleState::default();
    handle_osc_at(message("/MasterVolume", vec![float(0.5)]), &mut state, 0);
    assert_eq!(state.master_volume, 500);
    handle_osc_at(message("/MasterVolume", vec![float(1.5)]), &mut state, 0);
    assert_eq!(state.master_volume, 1500);
    handle_osc_at(message("/MasterVolume", vec![float(1.5000001)]), &mut state, 0);
    assert_eq!(state.master_volume, 1500);
    handle_osc_at(message("/MasterVolume", vec![float(0.25)]), &mut state, 0);
    assert_eq!(state.master_volume, 250);
    handle_osc_at(message("/MasterVolume", vec![float(-0.1)]), &mut state, 0);
    handle_osc_at(message("/MasterVolume", vec![float(f32::NAN)]), &mut state, 0);
    handle_osc_at(message("/MasterVolume", vec![float(f32::INFINITY)]), &mut state, 0);
    handle_osc_at(message("/MasterVolume", vec![float(2.0)]), &mut state, 0);
    assert_eq!(state.master_volume, 250);
    handle_osc_at(message("/MasterVolume", vec![float(-0.0)]), &mut state, 0);
    assert_eq!(state.master_volume, 0);
    assert_eq!(state.master_dimmer, 1000);
}

#[test]
fn volume_takes_percentages() {
    let mut state = ConsoleState::default();
    handle_osc_at(message("/MasterVolume", vec![OscArg::Int(50)]), &mut state, 0);
    assert_eq!(state.master_volume, 500);
    handle_osc_at(message("/MasterVolume", vec![OscArg::Int(150)]), &mut state, 0);
    assert_eq!(state.master_volume, 1500);
    handle_osc_at(message("/MasterVolume", vec![OscArg::Int(151)]), &mut state, 0);
    handle_osc_at(message("/MasterVolume", vec![OscArg::Int(-1)]), &mut state, 0);
    assert_eq!(state.master_volume, 1500);
    handle_osc_at(message("/MasterVolume", vec![double(75.0)]), &mut state, 0);
    assert_eq!(state.master_volume, 750);
    handle_osc_at(message("/MasterVolume", vec![double(150.1)]), &mut state, 0);
    handle_osc_at(message("/MasterVolume", vec![double(-3.0)]), &mut state, 0);
    handle_osc_at(message("/MasterVolume", vec![double(f64::NAN)]), &mut state, 0);
    assert_eq!(state.master_volume, 750);
    handle_osc_at(message("/MasterVolume", vec![OscArg::Long(123)]), &mut state, 0);
    assert_eq!(state.master_volume, 1230);
    handle_osc_at(message("/MasterVolume", vec![OscArg::Long(151)]), &mut state, 0);
    handle_osc_at(message("/MasterVolume", vec![OscArg::Long(-1)]), &mut state, 0);
    handle_osc_at(message("/MasterVolume", vec![OscArg::Other]), &mut state, 0);
    assert_eq!(state.master_volume, 1230);
}

#[test]
fn the_last_argument_that_fits_stands() {
    let mut state = ConsoleState::default();
    handle_osc_at(
        message("/MasterVolume", vec![float(0.2), OscArg::Int(70), float(9.0), OscArg::Other]),
        &mut state,
        0,
    );
    assert_eq!(state.master_volume, 700);
    assert_eq!(settle(Control::Dimmer, &vec![OscArg::Int(101), OscArg::Other], 321), 321);
}

#[test]
fn dimmer_takes_levels_up_to_full() {
    let mut state = ConsoleState::default();
    handle_osc_at(message("/MasterDMX", vec![float(0.75)]), &mut state, 0);
    assert_eq!(state.master_dimmer, 750);
    handle_osc_at(message("/MasterDMX", vec![float(1.2)]), &mut state, 0);
    assert_eq!(state.master_dimmer, 750);
    handle_osc_at(message("/MasterDMX", vec![OscArg::Int(100)]), &mut state, 0);
    assert_eq!(state.master_dimmer, 1000);
    handle_osc_at(message("/MasterDMX", vec![OscArg::Int(101)]), &mut state, 0);
    assert_eq!(state.master_dimmer, 1000);
    handle_osc_at(message("/MasterDMX", vec![double(12.5)]), &mut state, 0);
    assert_eq!(state.master_dimmer, 125);
    handle_osc_at(message("/MasterDMX", vec![double(100.5)]), &mut state, 0);
    assert_eq!(state.master_dimmer, 125);
    handle_osc_at(message("/MasterDMX", vec![OscArg::Long(40)]), &mut state, 0);
    assert_eq!(state.master_dimmer, 400);
    handle_osc_at(message("/MasterDMX", vec![OscArg::Long(101)]), &mut state, 0);
    assert_eq!(state.master_dimmer, 400);
    assert_eq!(state.master_volume, 1000);
}

#[test]
fn reading_single_arguments() {
    assert_eq!(read_level(Control::Volume, float(1.25)), Some(1250));
    assert_eq!(read_level(Control::Dimmer, float(1.25)), None);
    assert_eq!(read_level(Control::Fader, float(1.0)), Some(1000));
    assert_eq!(read_level(Control::Fader, OscArg::Int(50)), None);
    assert_eq!(read_level(Control::Fader, double(50.0)), None);
    assert_eq!(read_level(Control::Fader, OscArg::Long(50)), None);
    assert_eq!(read_level(Control::Volume, OscArg::Long(150)), Some(1500));
    assert_eq!(read_level(Control::Dimmer, OscArg::Long(100)), Some(1000));
    assert_eq!(read_level(Control::Dimmer, OscArg::Int(33)), Some(330));
}

#[test]
fn fader_moves_only_with_cues() {
    let mut state = ConsoleState::default();
    state.executors[2].cue_list.push(Cue::new(1));
    handle_osc_at(message("/Executor3/Dimmer", vec![float(0.4)]), &mut state, 0);
    assert_eq!(state.executors[2].fader_level, 400);
    handle_osc_at(message("/Executor1/Dimmer", vec![float(0.4)]), &mut state, 0);
    assert_eq!(state.executors[0].fader_level, 0);
    handle_osc_at(message("/Executor3/Dimmer", vec![OscArg::Int(90)]), &mut state, 0);
    handle_osc_at(message("/Executor3/Dimmer", vec![float(1.01)]), &mut state, 0);
    assert_eq!(state.executors[2].fader_level, 400);
    handle_osc_at(message("/Executor03/Dimmer", vec![float(0.9)]), &mut state, 0);
    handle_osc_at(message("/Executor11/Dimmer", vec![float(0.9)]), &mut state, 0);
    assert_eq!(state.executors[2].fader_level, 400);
}

#[test]
fn go_and_go_back_by_address() {
    let mut state = ConsoleState::default();
    for id in 1..=3 {
        state.executors[9].cue_list.push(Cue::new(id));
    }
    handle_osc_at(message("/Executor10/Go", vec![]), &mut state, 77);
    assert_eq!(state.executors[9].current_cue, Some(2));
    assert_eq!(state.executors[9].fade_start_time, 77);
    handle_osc_at(message("/Executor10/GoBack", vec![OscArg::Int(1)]), &mut state, 78);
    assert_eq!(state.executors[9].current_cue, Some(1));
    handle_osc_at(message("/Executor10/GoBack", vec![]), &mut state, 79);
    assert_eq!(state.executors[9].current_cue, Some(3));
    handle_osc_at(message("/Executor1/Go", vec![]), &mut state, 80);
    assert_eq!(state.executors[0].current_cue, None);
    let now = handle_osc(message("/Executor10/Go", vec![]), &mut state);
    assert_eq!(state.executors[9].current_cue, Some(1));
    assert_eq!(state.executors[9].fade_start_time, now);
}

#[test]
fn passed_over_arguments_are_told() {
    let naming = OSCNaming::default();
    let args = vec![float(0.5), float(1.2), OscArg::Int(151), OscArg::Other, OscArg::Long(7)];
    assert_eq!(
        ignored_arguments(&message("/MasterVolume", args.clone()), &naming),
        vec![(Control::Volume, OscArg::Int(151)), (Control::Volume, OscArg::Other)]
    );
    assert_eq!(
        ignored_arguments(&message("/MasterDMX", args.clone()), &naming),
        vec![
            (Control::Dimmer, float(1.2)),
            (Control::Dimmer, OscArg::Int(151)),
            (Control::Dimmer, OscArg::Other),
        ]
    );
    assert!(ignored_arguments(&message("/Executor1/Dimmer", args.clone()), &naming).is_empty());
    assert!(ignored_arguments(&Some(OscPacket::Bundle), &naming).is_empty());
    assert!(ignored_arguments(&None, &naming).is_empty());
    let mut both = OSCNaming::default();
    both.master_dmx = "/MasterVolume".to_string();
    assert_eq!(
        ignored_arguments(&message("/MasterVolume", vec![float(1.2)]), &both),
        vec![(Control::Dimmer, float(1.2))]
    );
    assert_eq!(MAX_DATAGRAM, 1536);
}

#[test]
fn bundles_and_silence_change_nothing() {
    let mut state = ConsoleState::default();
    handle_osc_at(Some(OscPacket::Bundle), &mut state, 1);
    handle_osc_at(None, &mut state, 1);
    handle_osc_at(message("/Nothing", vec![float(0.1)]), &mut state, 1);
    assert_eq!(state.master_volume, 1000);
    assert_eq!(state.master_dimmer, 1000);
}

#[test]
fn renamed_addresses_are_followed() {
    let mut state = ConsoleState::default();
    state.osc_address_manager.master_volume = "/vol".to_string();
    state.osc_address_manager.executor_identifier = "/x/".to_string();
    state.osc_address_manager.executor_go = "".to_string();
    state.executors[1].cue_list.push(Cue::new(8));
    state.executors[1].id = 41;
    handle_osc_at(message("/vol", vec![OscArg::Int(10)]), &mut state, 5);
    assert_eq!(state.master_volume, 100);
    handle_osc_at(message("/MasterVolume", vec![OscArg::Int(20)]), &mut state, 5);
    assert_eq!(state.master_volume, 100);
    handle_osc_at(message("/x/42", vec![]), &mut state, 5);
    assert_eq!(state.executors[1].current_cue, Some(8));
    assert_eq!(find_executor(&state.executors, "/x/", "", "/x/42"), Some(1));
    assert_eq!(find_executor(&state.executors, "/x/", "", "/x/2"), None);
}

#[test]
fn listening_address_is_read() {
    let m = OSCManager::from("127.0.0.1:9000").unwrap();
    assert_eq!(m.address(), (127, 0, 0, 1, 9000));
    let m = OSCManager::from("  0.0.0.0:0 \n").unwrap();
    assert_eq!(m.address(), (0, 0, 0, 0, 0));
    let m = OSCManager::from("255.255.255.255:65535").unwrap();
    assert_eq!(m.address(), (255, 255, 255, 255, 65535));
    assert!(m.get_osc_history().is_empty());
}

#[test]
fn bad_listening_addresses_are_refused() {
    for text in [
        "",
        "localhost:9000",
        "127.0.0.1",
        "127.0.0.1:",
        "127.0.0:9000",
        "256.0.0.1:9000",
        "127.0.0.1:65536",
        "127.0.0.1:9000 x",
        "127.0.0.1:90:00",
        "127.0.0.1.5:9000",
        "127..0.1:9000",
        "a.b.c.d:e",
        "127.0.0.1 :9000",
    ] {
        assert!(
            matches!(OSCManager::from(text), Err(Error::InvalidIpFormatting)),
            "{:?}",
            text
        );
    }
}

#[test]
fn a_failed_binding_is_told() {
    let m = OSCManager::from("127.0.0.1:9000").unwrap();
    let m = m.after_binding(None).unwrap();
    assert_eq!(m.address(), (127, 0, 0, 1, 9000));
    match m.after_binding(Some("address in use".to_string())) {
        Err(Error::BindingError(why)) => assert_eq!(why, "address in use"),
        other => panic!("unexpected {:?}", other),
    }
}

#[test]
fn setup_error_messages() {
    assert_eq!(Error::InvalidIpFormatting.message(), "Invalid IP:Port formatting");
    assert_eq!(
        Error::BindingError("address in use".to_string()).message(),
        "Binding Error: address in use"
    );
}

#[test]
fn history_keeps_the_last_twenty() {
    let mut m = OSCManager::from("127.0.0.1:9000").unwrap();
    assert!(m.get_osc(None).is_none());
    for i in 0..25 {
        let got = m.get_osc(message("/n", vec![OscArg::Int(i)]));
        assert!(got.is_some());
    }
    let history = m.get_osc_history();
    assert_eq!(history.len(), 20);
    match &history[0] {
        OscPacket::Message(first) => assert_eq!(first.args, vec![OscArg::Int(5)]),
        OscPacket::Bundle => panic!("a message was heard"),
    }
    match &history[19] {
        OscPacket::Message(last) => assert_eq!(last.args, vec![OscArg::Int(24)]),
        OscPacket::Bundle => panic!("a message was heard"),
    }
}

#[test]
fn datagrams_are_decoded() {
    let packet = rosc::OscPacket::Message(rosc::OscMessage {
        addr: "/MasterDMX".to_string(),
        args: vec![
            rosc::OscType::Float(0.5),
            rosc::OscType::Int(-3),
            rosc::OscType::Long(1 << 40),
            rosc::OscType::Double(12.5),
            rosc::OscType::String("hello".to_string()),
            rosc::OscType::Bool(true),
        ],
    });
    let bytes = rosc::encoder::encode(&packet).unwrap();
    let mut m = OSCManager::from("127.0.0.1:9000").unwrap();
    match m.receive(&bytes) {
        Some(OscPacket::Message(got)) => {
            assert_eq!(got.addr, "/MasterDMX");
            assert_eq!(
                got.args,
                vec![
                    OscArg::Float(0.5f32.to_bits()),
                    OscArg::Int(-3),
                    OscArg::Long(1 << 40),
                    OscArg::Double(12.5f64.to_bits()),
                    OscArg::Other,
                    OscArg::Other,
                ]
            );
        }
        other => panic!("unexpected {:?}", other),
    }
    assert_eq!(m.get_osc_history().len(), 1);
    assert!(m.receive(b"not a packet").is_none());
    assert!(m.receive(&[]).is_none());
    assert!(m.receive(&vec![0u8; 70_000]).is_none());
    let mut long = bytes.clone();
    long.resize(1537, 0);
    assert!(m.receive(&long).is_none());
    assert_eq!(m.get_osc_history().len(), 1);
}

#[test]
fn a_decoded_datagram_moves_the_dimmer() {
    let packet = rosc::OscPacket::Message(rosc::OscMessage {
        addr: "/MasterDMX".to_string(),
        args: vec![rosc::OscType::Float(0.25)],
    });
    let bytes = rosc::encoder::encode(&packet).unwrap();
    let mut m = OSCManager::from("127.0.0.1:9000").unwrap();
    let mut state = ConsoleState::default();
    let heard = m.receive(&bytes);
    handle_osc_at(heard, &mut state, 0);
    assert_eq!(state.master_dimmer, 250);
}

#[test]
fn bundles_are_told_apart() {
    let bundle = rosc::OscPacket::Bundle(rosc::OscBundle {
        timetag: rosc::OscTime { seconds: 1, fractional: 2 },
        content: vec![],
    });
    let bytes = rosc::encoder::encode(&bundle).unwrap();
    let mut m = OSCManager::from("127.0.0.1:9000").unwrap();
    assert!(matches!(m.receive(&bytes), Some(OscPacket::Bundle)));
    assert!(matches!(m.get_osc_history()[0].duplicate(), OscPacket::Bundle));
}
