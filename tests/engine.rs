use tdrum::control::{Control, ControlError, MASTER_ID};
use tdrum::fader::{FaderRef, CENTRE, UNITY};
use tdrum::instrument::InstrumentRef;
use tdrum::processor::{FaderSourceType, Processor, SharedState};
use tdrum::publish::SharedIdx;
use tdrum::samples::{Sample, SampleHandle};

/// Completes a staged change, counting the publications it needed.
fn settle(control: &mut Control) -> usize {
    if control.is_pending() {
        control.settle();
        1
    } else {
        0
    }
}

fn constant_sample(value: i32, len: usize) -> Sample {
    Sample::new(vec![value; len], len)
}

/// An engine with one instrument playing `value` through its fader, a bus
/// and the master fader.
fn chain(value: i32, bus_gain: u32, instr_gain: u32, pan: u32) -> (Control, Processor, InstrumentRef) {
    let mut control = Control::new();
    let mut processor = control.start_engine().unwrap();
    let drum = control.instrument_new("kick");
    settle(&mut control);
    let mut handle = SampleHandle::from_sample(&constant_sample(value, 64));
    control.instrument_add_sample(&drum, &mut handle).unwrap();
    settle(&mut control);
    let drum_fader = control.instrument_get_fader(&drum).unwrap();
    let bus = control.fader_new("bus");
    settle(&mut control);
    let master = control.get_master_fader();
    control.fader_add_fader_src(&bus, &drum_fader);
    settle(&mut control);
    control.fader_add_fader_src(&master, &bus);
    settle(&mut control);
    control.fader_set_gain(&bus, bus_gain);
    control.fader_set_gain(&drum_fader, instr_gain);
    for f in [&master, &bus, &drum_fader] {
        control.fader_set_panning(f, pan);
    }
    assert!(control.instrument_play(&drum, 100));
    let mut left = vec![0i32; 4];
    let mut right = vec![0i32; 4];
    processor.mix(control.buffers.live(), &mut left, &mut right);
    (control, processor, drum)
}

fn render(control: &Control, processor: &mut Processor, frames: usize) -> (Vec<i32>, Vec<i32>) {
    let mut left = vec![0i32; frames];
    let mut right = vec![0i32; frames];
    processor.mix(control.buffers.live(), &mut left, &mut right);
    (left, right)
}

#[test]
fn gain_composition_centred() {
    // 2^20 * 0.25 * 0.5 at unit master gain, each of the three faders
    // sending half to each channel.
    let (control, mut processor, _) = chain(1 << 20, UNITY / 2, UNITY / 4, CENTRE);
    let (left, right) = render(&control, &mut processor, 4);
    assert_eq!(left, vec![16384; 4]);
    assert_eq!(right, vec![16384; 4]);
}

#[test]
fn gain_composition_full_left() {
    let (control, mut processor, _) = chain(1 << 20, UNITY / 2, UNITY / 4, UNITY);
    let (left, right) = render(&control, &mut processor, 4);
    assert_eq!(left, vec![131072; 4]);
    assert_eq!(right, vec![0; 4]);
}

#[test]
fn scaling_truncates_toward_zero() {
    let (control, mut processor, _) = chain(-3, UNITY / 2, UNITY, UNITY);
    let (left, _) = render(&control, &mut processor, 2);
    assert_eq!(left, vec![-1, -1]);
    let (control, mut processor, _) = chain(3, UNITY / 2, UNITY, UNITY);
    let (left, _) = render(&control, &mut processor, 2);
    assert_eq!(left, vec![1, 1]);
}

#[test]
fn output_saturates() {
    let (control, mut processor, drum) = chain(i32::MAX, UNITY, UNITY, UNITY);
    assert!(control.instrument_play(&drum, 100));
    let (left, _) = render(&control, &mut processor, 2);
    assert_eq!(processor.voices.len(), 2);
    assert_eq!(left, vec![i32::MAX, i32::MAX]);
}

#[test]
fn voice_is_silent_past_its_data() {
    let mut control = Control::new();
    let mut processor = control.start_engine().unwrap();
    let drum = control.instrument_new("snare");
    settle(&mut control);
    let mut handle = SampleHandle::from_sample(&Sample::new(vec![100, 200, 300], 3));
    control.instrument_add_sample(&drum, &mut handle).unwrap();
    settle(&mut control);
    let drum_fader = control.instrument_get_fader(&drum).unwrap();
    let master = control.get_master_fader();
    control.fader_add_fader_src(&master, &drum_fader);
    settle(&mut control);
    control.fader_set_panning(&master, UNITY);
    control.fader_set_panning(&drum_fader, UNITY);
    processor.start_voice(control.buffers.live(), drum.tcid, 1);
    let (left, right) = render(&control, &mut processor, 5);
    assert_eq!(left, vec![100, 200, 300, 0, 0]);
    assert_eq!(right, vec![0; 5]);
}

#[test]
fn unknown_trigger_changes_nothing() {
    let (control, mut processor, _) = chain(1 << 20, UNITY / 2, UNITY / 4, CENTRE);
    let before = render(&control, &mut processor, 4);
    assert!(control.instrument_play(&InstrumentRef { tcid: 9999 }, 127));
    let after = render(&control, &mut processor, 4);
    assert_eq!(processor.voices.len(), 1);
    assert_eq!(before, after);
}

#[test]
fn trigger_before_start_is_refused() {
    let mut control = Control::new();
    let drum = control.instrument_new("hat");
    settle(&mut control);
    assert!(!control.instrument_play(&drum, 64));
}

#[test]
fn engine_starts_once() {
    let mut control = Control::new();
    assert!(!control.is_running());
    assert!(control.start_engine().is_some());
    assert!(control.is_running());
    assert!(control.start_engine().is_none());
}

#[test]
fn finished_voices_are_purged() {
    let (control, mut processor, _) = chain(1 << 20, UNITY, UNITY, UNITY);
    assert_eq!(processor.voices.len(), 1);
    processor.advance_voices(32);
    assert_eq!(processor.voices.len(), 1);
    assert_eq!(processor.voices[0].voice.position, 32);
    processor.advance_voices(32);
    assert_eq!(processor.voices.len(), 0);
    let (left, right) = render(&control, &mut processor, 4);
    assert_eq!(left, vec![0; 4]);
    assert_eq!(right, vec![0; 4]);
    processor.advance_voices(0);
    assert_eq!(processor.voices.len(), 0);
}

#[test]
fn midi_note_on_starts_a_voice() {
    let mut control = Control::new();
    let mut processor = control.start_engine().unwrap();
    let drum = control.instrument_new("kick");
    settle(&mut control);
    let mut handle = SampleHandle::from_sample(&constant_sample(7, 8));
    control.instrument_add_sample(&drum, &mut handle).unwrap();
    settle(&mut control);
    control.instrument_set_note(&drum, 36);
    settle(&mut control);
    let live = control.buffers.live();
    processor.handle_midi(live, &[0x90, 36, 0]);
    processor.handle_midi(live, &[0x80, 36, 100]);
    processor.handle_midi(live, &[0x90, 37, 100]);
    processor.handle_midi(live, &[0x90, 36]);
    assert_eq!(processor.voices.len(), 0);
    processor.handle_midi(live, &[0x99, 36, 100]);
    assert_eq!(processor.voices.len(), 1);
    assert_eq!(processor.voices[0].instrument, drum.tcid);
}

#[test]
fn layerless_instrument_plays_nothing() {
    let mut control = Control::new();
    let mut processor = control.start_engine().unwrap();
    let drum = control.instrument_new("empty");
    settle(&mut control);
    processor.start_voice(control.buffers.live(), drum.tcid, 100);
    assert_eq!(processor.voices.len(), 0);
}

fn same_tables(a: &SharedState, b: &SharedState) -> bool {
    let mut ka: Vec<usize> = a.fader_map.keys().copied().collect();
    let mut kb: Vec<usize> = b.fader_map.keys().copied().collect();
    ka.sort();
    kb.sort();
    let mut ia: Vec<usize> = a.instr_map.keys().copied().collect();
    let mut ib: Vec<usize> = b.instr_map.keys().copied().collect();
    ia.sort();
    ib.sort();
    ka == kb
        && ia == ib
        && a.note_map == b.note_map
        && a.fsrc_map == b.fsrc_map
        && a.master.tcid == b.master.tcid
}

#[test]
fn both_snapshots_agree_after_each_change() {
    let mut control = Control::new();
    let _processor = control.start_engine().unwrap();
    let mut published = 0;
    let drum = control.instrument_new("tom");
    assert!(control.is_pending());
    assert!(!same_tables(&control.buffers.shared1, &control.buffers.shared2));
    published += settle(&mut control);
    assert!(same_tables(&control.buffers.shared1, &control.buffers.shared2));
    let bus = control.fader_new("bus");
    published += settle(&mut control);
    let master = control.get_master_fader();
    control.fader_add_fader_src(&master, &bus);
    published += settle(&mut control);
    control.instrument_set_note(&drum, 40);
    published += settle(&mut control);
    assert!(same_tables(&control.buffers.shared1, &control.buffers.shared2));
    control.instrument_delete(&drum);
    published += settle(&mut control);
    assert!(same_tables(&control.buffers.shared1, &control.buffers.shared2));
    assert_eq!(published, 5);
    control.fader_add_fader_src(&FaderRef { tcid: 4242 }, &bus);
    assert!(!control.is_pending());
}

#[test]
fn staging_leaves_the_read_snapshot_alone() {
    let mut control = Control::new();
    let _processor = control.start_engine().unwrap();
    assert_eq!(control.buffers.shidx, SharedIdx::Shared1);
    let bus = control.fader_new("bus");
    assert_eq!(control.buffers.shidx, SharedIdx::Shared2);
    assert!(!control.buffers.shared1.fader_map.contains_key(&bus.tcid));
    assert!(control.live().fader_map.contains_key(&bus.tcid));
    control.settle();
    assert!(!control.is_pending());
    assert_eq!(control.buffers.shidx, SharedIdx::Shared2);
    assert!(control.buffers.shared1.fader_map.contains_key(&bus.tcid));
    assert!(control.buffers.shared2.fader_map.contains_key(&bus.tcid));
}

#[test]
fn detached_changes_wait_for_nothing() {
    let mut control = Control::new();
    let bus = control.fader_new("bus");
    assert!(!control.is_pending());
    control.fader_add_fader_src(&control.get_master_fader(), &bus);
    assert!(!control.is_pending());
    assert!(same_tables(&control.buffers.shared1, &control.buffers.shared2));
}

#[test]
fn detached_changes_reach_both_snapshots() {
    let mut control = Control::new();
    let bus = control.fader_new("bus");
    settle(&mut control);
    control.fader_add_fader_src(&control.get_master_fader(), &bus);
    settle(&mut control);
    assert!(same_tables(&control.buffers.shared1, &control.buffers.shared2));
    assert_eq!(
        control.buffers.shared2.fsrc_map.get(&MASTER_ID),
        Some(&vec![FaderSourceType::FaderSrc(bus.tcid)])
    );
}

#[test]
fn deleting_an_instrument_leaves_no_reference() {
    let mut control = Control::new();
    let drum = control.instrument_new("kick");
    settle(&mut control);
    let own = control.instrument_get_fader(&drum).unwrap();
    let bus = control.fader_new("bus");
    settle(&mut control);
    let master = control.get_master_fader();
    control.fader_add_fader_src(&master, &own);
    settle(&mut control);
    control.fader_add_instrument_src(&bus, &drum);
    settle(&mut control);
    control.instrument_set_note(&drum, 36);
    settle(&mut control);
    control.instrument_delete(&drum);
    settle(&mut control);
    for st in [&control.buffers.shared1, &control.buffers.shared2] {
        assert!(!st.instr_map.contains_key(&drum.tcid));
        assert!(!st.fader_map.contains_key(&own.tcid));
        assert!(!st.fsrc_map.contains_key(&own.tcid));
        assert!(st.note_map.is_empty());
        for sources in st.fsrc_map.values() {
            assert!(!sources.contains(&FaderSourceType::InstrumentSrc(drum.tcid)));
            assert!(!sources.contains(&FaderSourceType::FaderSrc(own.tcid)));
        }
        assert!(st.fader_map.contains_key(&bus.tcid));
    }
    assert_eq!(control.instrument_get_fader(&drum), Err(ControlError::NotFound));
}

#[test]
fn fader_route_added_twice_is_one_edge() {
    let mut control = Control::new();
    let bus = control.fader_new("bus");
    settle(&mut control);
    let master = control.get_master_fader();
    control.fader_add_fader_src(&master, &bus);
    settle(&mut control);
    control.fader_add_fader_src(&master, &bus);
    settle(&mut control);
    assert_eq!(control.buffers.shared1.fsrc_map.get(&MASTER_ID).unwrap().len(), 1);
    control.fader_del_fader_src(&master, &bus);
    settle(&mut control);
    assert_eq!(control.buffers.shared1.fsrc_map.get(&MASTER_ID).unwrap().len(), 0);
}

#[test]
fn route_into_unknown_fader_is_ignored() {
    let mut control = Control::new();
    let bus = control.fader_new("bus");
    settle(&mut control);
    control.fader_add_fader_src(&FaderRef { tcid: 4242 }, &bus);
    settle(&mut control);
    assert!(!control.buffers.shared1.fsrc_map.contains_key(&4242));
}

#[test]
fn deleting_a_fader_removes_its_edges() {
    let mut control = Control::new();
    let bus = control.fader_new("bus");
    settle(&mut control);
    let sub = control.fader_new("sub");
    settle(&mut control);
    let master = control.get_master_fader();
    control.fader_add_fader_src(&master, &bus);
    settle(&mut control);
    control.fader_add_fader_src(&bus, &sub);
    settle(&mut control);
    control.fader_delete(&bus);
    settle(&mut control);
    let st = &control.buffers.shared1;
    assert_eq!(st.fsrc_map.get(&MASTER_ID), Some(&vec![]));
    assert!(!st.fsrc_map.contains_key(&bus.tcid));
    assert!(!st.fader_map.contains_key(&bus.tcid));
    assert!(st.fader_map.contains_key(&sub.tcid));
}

#[test]
fn gain_of_unknown_fader_is_not_found() {
    let mut control = Control::new();
    assert_eq!(control.fader_get_gain(&FaderRef { tcid: 77 }), Err(ControlError::NotFound));
    let master = control.get_master_fader();
    assert_eq!(master.tcid, MASTER_ID);
    assert_eq!(control.fader_get_gain(&master), Ok(UNITY));
    control.fader_set_gain(&master, 1234);
    assert_eq!(control.fader_get_gain(&master), Ok(1234));
    let bus = control.fader_new("bus");
    settle(&mut control);
    assert_eq!(control.fader_get_internal_id(&bus), bus.tcid);
}

#[test]
fn sample_for_unknown_instrument_is_not_found() {
    let mut control = Control::new();
    let mut handle = SampleHandle::from_sample(&constant_sample(1, 4));
    assert_eq!(
        control.instrument_add_sample(&InstrumentRef { tcid: 55 }, &mut handle),
        Err(ControlError::NotFound)
    );
}

#[test]
fn new_instrument_gets_its_own_fader() {
    let mut control = Control::new();
    let drum = control.instrument_new("kick");
    settle(&mut control);
    let own = control.instrument_get_fader(&drum).unwrap();
    assert_eq!(own.tcid, drum.tcid + 1);
    let st = &control.buffers.shared1;
    assert_eq!(st.fader_map.get(&own.tcid).unwrap().name, "kick");
    assert_eq!(st.fsrc_map.get(&own.tcid), Some(&vec![FaderSourceType::InstrumentSrc(drum.tcid)]));
    assert_eq!(control.ids_left(), usize::MAX - (drum.tcid + 2));
}

#[test]
fn shared_state_lookups() {
    let mut control = Control::new();
    let drum = control.instrument_new("kick");
    settle(&mut control);
    let own = control.instrument_get_fader(&drum).unwrap();
    let st = &control.buffers.shared1;
    assert_eq!(st.find_instrument_fader_idx(&drum), Some(own.tcid));
    assert_eq!(st.find_instrument_fader_idx(&InstrumentRef { tcid: 999 }), None);

    let mut st = SharedState::new(FaderRef { tcid: 3 });
    assert_eq!(st.master.tcid, 3);
    st.set_master(FaderRef { tcid: 5 });
    assert_eq!(st.master.tcid, 5);
    st.fsrc_map.insert(5, vec![FaderSourceType::FaderSrc(8), FaderSourceType::InstrumentSrc(8)]);
    st.fsrc_map.insert(6, vec![FaderSourceType::FaderSrc(8)]);
    st.delete_fader_source(&FaderRef { tcid: 8 });
    assert_eq!(st.fsrc_map.get(&5), Some(&vec![FaderSourceType::InstrumentSrc(8)]));
    assert_eq!(st.fsrc_map.get(&6), Some(&vec![]));
}

#[test]
fn instrument_fader_falls_back_to_another_source() {
    let mut control = Control::new();
    let drum = control.instrument_new("kick");
    settle(&mut control);
    let own = control.instrument_get_fader(&drum).unwrap();
    let bus = control.fader_new("bus");
    settle(&mut control);
    control.fader_add_instrument_src(&bus, &drum);
    settle(&mut control);
    assert_eq!(control.instrument_get_fader(&drum), Ok(FaderRef { tcid: own.tcid }));
    control.fader_delete(&own);
    settle(&mut control);
    assert_eq!(control.instrument_get_fader(&drum), Ok(FaderRef { tcid: bus.tcid }));
}

#[test]
fn play_request_names_instrument_and_velocity() {
    match Control::play_request(17, 99) {
        tdrum::processor::ProcessorMessage::PlayInstrument { iptr, velocity } => {
            assert_eq!(iptr, 17);
            assert_eq!(velocity, 99);
        }
    }
}

#[test]
fn gains_are_limited_to_unity() {
    let mut control = Control::new();
    let bus = control.fader_new("bus");
    settle(&mut control);
    control.fader_set_gain(&bus, UNITY * 4);
    assert_eq!(control.fader_get_gain(&bus), Ok(UNITY));
    assert_eq!(tdrum::fader::Fader::initu32("x", u32::MAX).get_gain(), UNITY);
}

#[test]
fn queued_trigger_starts_voice_at_its_start() {
    let (_control, processor, drum) = chain(5, UNITY, UNITY, UNITY);
    assert_eq!(processor.voices.len(), 1);
    assert_eq!(processor.voices[0].instrument, drum.tcid);
    assert_eq!(processor.voices[0].voice.position, 0);
}
