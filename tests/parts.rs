use tdrum::fader::{Fader, UNITY};
use tdrum::instrument::Instrument;
use tdrum::publish::QuiescenceWatch;
use tdrum::samples::{LevelSample, PlayingSample, Sample, SampleHandle};

fn tagged(tag: i32) -> SampleHandle {
    SampleHandle::from_sample(&Sample::new(vec![tag], 1))
}

fn layered(thresholds: &[u8]) -> Instrument {
    let mut instr = Instrument::create("layers");
    for &t in thresholds {
        let mut handle = tagged(t as i32);
        handle.set_trig(t);
        instr.add_sample(&mut handle);
    }
    instr
}

fn tag_for(instr: &Instrument, velocity: u8) -> i32 {
    instr.sample_for_level(velocity).data[0]
}

#[test]
fn velocity_layering() {
    let instr = layered(&[0, 64, 100]);
    assert_eq!(tag_for(&instr, 10), 0);
    assert_eq!(tag_for(&instr, 64), 64);
    assert_eq!(tag_for(&instr, 90), 64);
    assert_eq!(tag_for(&instr, 127), 100);
}

#[test]
fn layers_stay_sorted_whatever_the_order_of_insertion() {
    let instr = layered(&[100, 0, 64]);
    let levels: Vec<u8> = instr.sample_levels.iter().map(|l| l.level).collect();
    assert_eq!(levels, vec![0, 64, 100]);
    assert_eq!(tag_for(&instr, 99), 64);
}

#[test]
fn below_every_threshold_plays_the_first_layer() {
    let instr = layered(&[20, 40]);
    assert_eq!(tag_for(&instr, 5), 20);
}

#[test]
fn equal_thresholds_keep_insertion_order() {
    let mut instr = Instrument::create("twins");
    let mut first = tagged(1);
    first.set_trig(50);
    instr.add_sample(&mut first);
    let mut second = tagged(2);
    second.set_trig(50);
    instr.add_sample(&mut second);
    assert_eq!(second.get_trig(), 50);
    let tags: Vec<i32> = instr.sample_levels.iter().map(|l| l.sample.data[0]).collect();
    assert_eq!(tags, vec![1, 2]);
    assert_eq!(tag_for(&instr, 50), 2);
}

#[test]
fn duplicate_keeps_layers() {
    let instr = layered(&[3, 9]);
    let copy = instr.duplicate();
    assert_eq!(copy.sample_levels.len(), 2);
    assert_eq!(tag_for(&copy, 9), 9);
}

#[test]
fn handle_starts_at_threshold_zero() {
    let sample = Sample::new(vec![4, 5], 2);
    let handle = SampleHandle::from_sample(&sample);
    assert_eq!(handle.get_trig(), 0);
    assert_eq!(handle.sample.len(), 2);
    let layer = LevelSample::new(sample.share(), 12);
    assert_eq!(layer.level, 12);
    assert_eq!(*layer.sample.data, vec![4, 5]);
}

#[test]
fn voice_cursor_and_stream() {
    let mut voice = PlayingSample::from_sample(Sample::new(vec![1, 2, 3], 3));
    assert!(!voice.finished());
    assert_eq!(voice.value(2), 3);
    assert_eq!(voice.value(3), 0);
    voice.advance(2);
    assert_eq!(voice.value(0), 3);
    assert!(!voice.finished());
    voice.advance(1);
    assert!(voice.finished());
    voice.advance(usize::MAX);
    assert_eq!(voice.position, usize::MAX);
}

#[test]
fn voice_iterator_reads_to_the_end() {
    let mut voice = PlayingSample::from_sample(Sample::new(vec![7, 8, 9], 3));
    voice.advance(1);
    let mut it = voice.iter();
    assert_eq!(it.next(), Some(8));
    assert_eq!(it.next(), Some(9));
    assert_eq!(it.next(), None);
    assert_eq!(it.next(), None);
}

#[test]
fn sample_length_decides_when_a_voice_ends() {
    let mut voice = PlayingSample::from_sample(Sample::new(vec![1, 2, 3, 4], 2));
    voice.advance(2);
    assert!(voice.finished());
    assert_eq!(voice.value(0), 3);
}

#[test]
fn fader_levels() {
    let f = Fader::initu32("bus", UNITY / 2);
    assert_eq!(f.name, "bus");
    assert_eq!(f.get_gain(), UNITY / 2);
    assert_eq!(f.get_panning(), UNITY / 2);
    f.set_panning(UNITY * 3);
    assert_eq!(f.get_panning(), UNITY);
    f.set_panning(0);
    assert_eq!(f.get_panning(), 0);
    f.set_gain(7);
    assert_eq!(f.get_gain(), 7);
}

#[test]
fn quiescence_at_once_when_even() {
    let w = QuiescenceWatch::start(10);
    assert!(w.is_settled());
}

#[test]
fn quiescence_needs_an_even_repeat() {
    let mut w = QuiescenceWatch::start(11);
    assert!(!w.is_settled());
    w.observe(12);
    assert!(!w.is_settled());
    w.observe(13);
    assert!(!w.is_settled());
    w.observe(14);
    assert!(!w.is_settled());
    w.observe(14);
    assert!(w.is_settled());
    w.observe(15);
    assert!(w.is_settled());
    assert_eq!(w.last, 14);
}

#[test]
fn quiescence_not_on_odd_repeat() {
    let mut w = QuiescenceWatch::start(7);
    w.observe(7);
    assert!(!w.is_settled());
}
