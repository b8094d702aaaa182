use kira::engine::{ClockCommand, Command, Engine, EngineError, InstanceCommand, Sound};
use kira::instance::{InstanceLoopStart, InstanceSettings, StartTime};
use kira::mixer::{TrackBuilder, TrackId};
use kira::queue::QueueError;
use kira::sample::UNITY_GAIN;
use kira::sequence::{Sequence, SequenceAction, Step};
use kira::clock::TickRange;
use kira::engine::{MixerCommand, ParameterCommand, ResourceKind};
use kira::tween::Value;


fn stereo(mono: &[i32]) -> Vec<i32> {
    let mut out = Vec::new();
    for s in mono {
        out.push(*s);
        out.push(*s);
    }
    out
}

#[test]
fn instance_on_sub_track_reaches_main_unchanged() {
    let mut e = Engine::new(4, 4);
    let t1 = e.mixer.add_sub_track(TrackBuilder::new()).unwrap();
    let sound = e.add_sound(Sound { samples: vec![300; 16], loop_start: None }).unwrap();
    let id = e.play(sound, InstanceSettings::new().track(t1)).unwrap();
    assert!(e.voices.get(id).is_some());
    assert_eq!(e.process(), stereo(&[300, 300, 300, 300]));
}

#[test]
fn stopped_instance_fades_then_leaves_arena() {
    let mut e = Engine::new(2, 4);
    let sound = e.add_sound(Sound { samples: vec![1000; 64], loop_start: Some(0) }).unwrap();
    let id = e.play(sound, InstanceSettings::new()).unwrap();
    assert_eq!(e.process(), stereo(&[1000, 1000]));
    assert_eq!(e.send(Command::Instance(InstanceCommand::Stop(id, 8))), Ok(()));
    let mut last = 1000;
    for _ in 0..3 {
        let block = e.process();
        assert!(block[0] < last);
        last = block[0];
        assert!(e.voices.get(id).is_some());
    }
    let block = e.process();
    assert_eq!(block, stereo(&[0, 0]));
    assert!(e.voices.get(id).is_none());
    assert_eq!(e.send(Command::Instance(InstanceCommand::Stop(id, 0))), Ok(()));
    assert_eq!(e.process(), stereo(&[0, 0]));
}

#[test]
fn engine_queue_refuses_fifth_command() {
    let mut e = Engine::new(1, 4);
    let clock = e.add_clock(UNITY_GAIN).unwrap();
    for _ in 0..4 {
        assert_eq!(e.send(Command::Clock(ClockCommand::Start(clock))), Ok(()));
    }
    assert_eq!(e.send(Command::Clock(ClockCommand::Start(clock))), Err(QueueError::QueueFull));
    e.process();
    assert_eq!(e.send(Command::Clock(ClockCommand::Pause(clock))), Ok(()));
    assert_eq!(e.clocks.get(clock).unwrap().subticks, UNITY_GAIN as u64);
}

#[test]
fn bad_instances_are_refused() {
    let mut e = Engine::new(1, 1);
    let sound = e.add_sound(Sound { samples: vec![1, 2], loop_start: None }).unwrap();
    assert_eq!(e.add_sound(Sound { samples: vec![], loop_start: None }).err(), Some(EngineError::CapacityExceeded));
    assert_eq!(e.play(sound, InstanceSettings::new().start_position(2)).err(), Some(EngineError::BadInstance));
    assert_eq!(
        e.play(sound, InstanceSettings::new().loop_start(InstanceLoopStart::Custom(5))).err(),
        Some(EngineError::BadInstance)
    );
    assert!(e.play(sound, InstanceSettings::new().track(TrackId::Main)).is_ok());
    assert_eq!(e.play(sound, InstanceSettings::new()).err(), Some(EngineError::CapacityExceeded));
    assert_eq!(e.add_clock(u32::MAX).err(), Some(EngineError::BadSpeed));
}

#[test]
fn sequence_steps_fire_on_clock_ticks() {
    let mut e = Engine::new(1, 4);
    let sound = e.add_sound(Sound { samples: vec![500; 32], loop_start: Some(0) }).unwrap();
    let id = e.play(sound, InstanceSettings::new()).unwrap();
    let clock = e.add_clock(UNITY_GAIN).unwrap();
    let steps = vec![
        Step { tick: 1, action: SequenceAction::Emit(7) },
        Step { tick: 2, action: SequenceAction::StopInstance(id, 0) },
        Step { tick: 3, action: SequenceAction::Emit(9) },
    ];
    assert!(e.add_sequence(clock, steps).is_ok());
    assert_eq!(e.send(Command::Clock(ClockCommand::Start(clock))), Ok(()));
    assert_eq!(e.process(), stereo(&[500]));
    assert_eq!(e.take_events(), vec![7]);
    assert!(e.voices.get(id).is_some());
    assert_eq!(e.process(), stereo(&[0]));
    assert!(e.voices.get(id).is_none());
    assert_eq!(e.take_events(), Vec::<u32>::new());
    e.process();
    assert_eq!(e.take_events(), vec![9]);
}

#[test]
fn unsorted_sequence_is_refused() {
    let mut e = Engine::new(1, 2);
    let clock = e.add_clock(1).unwrap();
    let steps = vec![
        Step { tick: 4, action: SequenceAction::Emit(1) },
        Step { tick: 2, action: SequenceAction::Emit(2) },
    ];
    assert_eq!(e.add_sequence(clock, steps.clone()).err(), Some(EngineError::BadSequence));
    assert!(Sequence::new(clock, steps).is_none());
    let mut q = Sequence::new(clock, vec![Step { tick: 1, action: SequenceAction::Emit(3) }]).unwrap();
    assert!(!q.is_finished());
    let fired = q.fire(TickRange { first: 1, end: 2 });
    assert_eq!(fired, vec![SequenceAction::Emit(3)]);
    assert!(q.is_finished());
}

#[test]
fn parameters_glide_and_values_resolve() {
    let mut e = Engine::new(2, 2);
    let p = e.add_parameter(100).unwrap();
    assert_eq!(Value::Parameter(p).resolve(&e.parameters, -1), 100);
    assert_eq!(Value::Fixed(42).resolve(&e.parameters, -1), 42);
    assert_eq!(e.send(Command::Parameter(ParameterCommand::SetValue(p, 300, 4))), Ok(()));
    e.process();
    assert_eq!(Value::Parameter(p).resolve(&e.parameters, -1), 200);
    e.process();
    assert_eq!(Value::Parameter(p).resolve(&e.parameters, -1), 300);
    assert!(e.parameters.get(p).unwrap().tween.is_none());
    let gone = kira::arena::ResourceId { index: p.index, generation: p.generation + 1 };
    assert_eq!(Value::Parameter(gone).resolve(&e.parameters, -1), -1);
}

#[test]
fn instance_volume_rate_and_seek_commands() {
    let mut e = Engine::new(2, 2);
    let sound = e.add_sound(Sound { samples: vec![10, 20, 30, 40, 50, 60, 70, 80], loop_start: None }).unwrap();
    let id = e.play(sound, InstanceSettings::new()).unwrap();
    assert_eq!(e.process(), stereo(&[10, 20]));
    assert_eq!(e.send(Command::Instance(InstanceCommand::SetVolume(id, Value::Fixed((UNITY_GAIN / 2) as i32)))), Ok(()));
    assert_eq!(e.process(), stereo(&[15, 20]));
    assert_eq!(e.send(Command::Instance(InstanceCommand::SeekTo(id, 1))), Ok(()));
    assert_eq!(e.send(Command::Instance(InstanceCommand::SetPlaybackRate(id, Value::Fixed((UNITY_GAIN * 2) as i32)))), Ok(()));
    assert_eq!(e.process(), stereo(&[10, 20]));
    assert_eq!(e.voices.get(id).unwrap().instance.position, 5);
    assert_eq!(e.send(Command::Instance(InstanceCommand::SeekTo(id, 8))), Ok(()));
    e.process();
    assert!(e.voices.get(id).is_none());
}

#[test]
fn instance_volume_follows_a_parameter() {
    let mut e = Engine::new(1, 2);
    let p = e.add_parameter(0).unwrap();
    let sound = e.add_sound(Sound { samples: vec![1000; 16], loop_start: Some(0) }).unwrap();
    let id = e.play(sound, InstanceSettings::new().volume(Value::Parameter(p))).unwrap();
    assert_eq!(e.process(), stereo(&[0]));
    assert_eq!(e.send(Command::Parameter(ParameterCommand::SetValue(p, UNITY_GAIN as i32, 4))), Ok(()));
    assert_eq!(e.process(), stereo(&[250]));
    assert_eq!(e.process(), stereo(&[500]));
    assert_eq!(e.process(), stereo(&[750]));
    assert_eq!(e.process(), stereo(&[1000]));
    assert_eq!(e.process(), stereo(&[1000]));
    assert_eq!(e.voices.get(id).unwrap().volume, Value::Parameter(p));
}

#[test]
fn clock_start_waits_for_its_tick() {
    let mut e = Engine::new(1, 2);
    let clock = e.add_clock(UNITY_GAIN).unwrap();
    let sound = e.add_sound(Sound { samples: vec![10, 20, 30, 40], loop_start: None }).unwrap();
    let settings = InstanceSettings::new().start_time(StartTime::ClockTime(clock, 2));
    let id = e.play(sound, settings).unwrap();
    assert_eq!(e.process(), stereo(&[0]));
    assert_eq!(e.send(Command::Clock(ClockCommand::Start(clock))), Ok(()));
    assert_eq!(e.process(), stereo(&[0]));
    assert_eq!(e.voices.get(id).unwrap().instance.position, 0);
    assert_eq!(e.process(), stereo(&[10]));
    assert_eq!(e.process(), stereo(&[20]));
}

#[test]
fn fade_in_rises_from_silence() {
    let mut e = Engine::new(1, 2);
    let sound = e.add_sound(Sound { samples: vec![800; 16], loop_start: Some(0) }).unwrap();
    e.play(sound, InstanceSettings::new().fade_in_duration(4)).unwrap();
    assert_eq!(e.process(), stereo(&[200]));
    assert_eq!(e.process(), stereo(&[400]));
    assert_eq!(e.process(), stereo(&[600]));
    assert_eq!(e.process(), stereo(&[800]));
    assert_eq!(e.process(), stereo(&[800]));
}

#[test]
fn track_volume_command_scales_the_track() {
    let mut e = Engine::new(2, 2);
    let t1 = e.mixer.add_sub_track(TrackBuilder::new()).unwrap();
    let sound = e.add_sound(Sound { samples: vec![400; 8], loop_start: Some(0) }).unwrap();
    e.play(sound, InstanceSettings::new().track(t1)).unwrap();
    assert_eq!(e.send(Command::Mixer(MixerCommand::SetTrackVolume(t1, UNITY_GAIN / 4))), Ok(()));
    assert_eq!(e.process(), stereo(&[100, 100]));
    assert_eq!(e.send(Command::Mixer(MixerCommand::SetTrackVolume(TrackId::Main, UNITY_GAIN * 2))), Ok(()));
    assert_eq!(e.send(Command::Mixer(MixerCommand::SetTrackVolume(TrackId::Sub(7), 0))), Ok(()));
    assert_eq!(e.process(), stereo(&[200, 200]));
}

#[test]
fn panning_splits_the_channels() {
    let mut e = Engine::new(1, 2);
    let sound = e.add_sound(Sound { samples: vec![1000; 8], loop_start: Some(0) }).unwrap();
    let left = e.play(sound, InstanceSettings::new().panning(Value::Fixed(0))).unwrap();
    assert_eq!(e.process(), vec![1000, 0]);
    assert_eq!(e.send(Command::Instance(InstanceCommand::Stop(left, 0))), Ok(()));
    e.process();
    e.play(sound, InstanceSettings::new().panning(Value::Fixed((UNITY_GAIN * 3 / 4) as i32))).unwrap();
    assert_eq!(e.process(), vec![500, 1000]);
    assert_eq!(InstanceSettings::new().panning, Value::Fixed((UNITY_GAIN / 2) as i32));
}

#[test]
fn remove_commands_free_their_slots() {
    let mut e = Engine::new(1, 2);
    let sound = e.add_sound(Sound { samples: vec![100; 8], loop_start: Some(0) }).unwrap();
    let id = e.play(sound, InstanceSettings::new()).unwrap();
    let p = e.add_parameter(5).unwrap();
    let clock = e.add_clock(1).unwrap();
    assert_eq!(e.process(), stereo(&[100]));
    assert_eq!(e.send(Command::Remove(ResourceKind::Instance, id)), Ok(()));
    assert_eq!(e.send(Command::Remove(ResourceKind::Parameter, p)), Ok(()));
    assert_eq!(e.process(), stereo(&[0]));
    assert!(e.voices.get(id).is_none());
    assert!(e.parameters.get(p).is_none());
    assert_eq!(e.send(Command::Remove(ResourceKind::Clock, clock)), Ok(()));
    assert_eq!(e.send(Command::Remove(ResourceKind::Sound, sound)), Ok(()));
    e.process();
    assert!(e.clocks.get(clock).is_none());
    assert!(e.sounds.get(sound).is_none());
    assert!(e.play(sound, InstanceSettings::new()).is_err());
}

#[test]
fn track_route_command_redirects_sends() {
    let mut e = Engine::new(1, 3);
    let a = e.mixer.add_sub_track(TrackBuilder::new()).unwrap();
    let b = e.mixer.add_sub_track(TrackBuilder::new()).unwrap();
    let sound = e.add_sound(Sound { samples: vec![400; 8], loop_start: Some(0) }).unwrap();
    e.play(sound, InstanceSettings::new().track(b)).unwrap();
    assert_eq!(e.process(), stereo(&[400]));
    assert_eq!(e.send(Command::Mixer(MixerCommand::SetTrackRoute(b, TrackId::Main, 0))), Ok(()));
    assert_eq!(e.send(Command::Mixer(MixerCommand::SetTrackRoute(b, a, UNITY_GAIN / 2))), Ok(()));
    assert_eq!(e.send(Command::Mixer(MixerCommand::SetTrackRoute(a, b, UNITY_GAIN))), Ok(()));
    assert_eq!(e.process(), stereo(&[200]));
}
