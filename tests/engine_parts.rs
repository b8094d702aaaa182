use kira::arena::{Arena, ArenaError, ResourceId};
use kira::clock::{Clock, ClockState, SUBTICKS_PER_TICK};
use kira::instance::{Instance, InstanceLoopStart, InstanceSettings, PlaybackState, StartTime, wrap_position};
use kira::mixer::{Effect, Mixer, MixerError, Route, TrackBuilder, TrackId, TrackRoutes};
use kira::queue::{CommandQueue, QueueError};
use kira::sample::{mix, scale, UNITY_GAIN};
use kira::tween::{Easing, Parameter, Tween, Value};


fn stereo(mono: &[i32]) -> Vec<i32> {
    let mut out = Vec::new();
    for s in mono {
        out.push(*s);
        out.push(*s);
    }
    out
}

#[test]
fn tween_starts_at_start_and_ends_at_target() {
    let mut tw = Tween::new(100, 300, 10, Easing::Linear);
    assert_eq!(tw.value(), 100);
    tw.elapsed = 5;
    assert_eq!(tw.value(), 200);
    tw.elapsed = 10;
    assert_eq!(tw.value(), 300);
    tw.elapsed = 25;
    assert_eq!(tw.value(), 300);
}

#[test]
fn tween_easings_and_descent() {
    let mut q = Tween::new(0, 100, 10, Easing::InQuad);
    q.elapsed = 5;
    assert_eq!(q.value(), 25);
    let mut o = Tween::new(0, 100, 10, Easing::OutQuad);
    o.elapsed = 5;
    assert_eq!(o.value(), 75);
    let mut d = Tween::new(100, -100, 4, Easing::Linear);
    d.elapsed = 1;
    assert_eq!(d.value(), 50);
    d.elapsed = 3;
    assert_eq!(d.value(), -50);
    let zero = Tween::new(7, 9, 0, Easing::Linear);
    assert_eq!(zero.value(), 9);
}

#[test]
fn retargeting_starts_from_current_value() {
    let mut p = Parameter::new(0);
    p.set(1000, 10, Easing::Linear);
    p.advance(4);
    assert_eq!(p.value(), 400);
    p.set(0, 4, Easing::Linear);
    assert_eq!(p.value(), 400);
    p.advance(1);
    assert_eq!(p.value(), 300);
    p.advance(10);
    assert_eq!(p.value(), 0);
    assert!(p.tween.is_none());
    p.set(55, 0, Easing::Linear);
    assert_eq!(p.value(), 55);
}

#[test]
fn arena_reuses_slots_with_new_generations() {
    let mut a: Arena<u32> = Arena::new(2);
    assert_eq!(a.capacity_of(), 2);
    let x = a.insert(10).unwrap();
    let y = a.insert(20).unwrap();
    assert_ne!(x, y);
    assert_eq!(a.insert(30), Err(ArenaError::CapacityExceeded));
    assert_eq!(a.get(x), Some(&10));
    assert_eq!(a.remove(x), Some(10));
    assert_eq!(a.remove(x), None);
    assert_eq!(a.get(x), None);
    let z = a.insert(40).unwrap();
    assert_eq!(z.index, x.index);
    assert_ne!(z.generation, x.generation);
    assert_eq!(a.get(x), None);
    assert_eq!(a.get(z), Some(&40));
    assert_eq!(a.get(y), Some(&20));
    assert_eq!(a.get(ResourceId { index: 9, generation: 0 }), None);
}

#[test]
fn queue_of_four_refuses_fifth_until_drained() {
    let mut q: CommandQueue<u32> = CommandQueue::new(4);
    for i in 0..4u32 {
        assert_eq!(q.push(i), Ok(()));
    }
    assert_eq!(q.push(4), Err(QueueError::QueueFull));
    assert_eq!(q.len(), 4);
    let drained = q.drain();
    assert_eq!(drained, vec![0, 1, 2, 3]);
    assert_eq!(q.len(), 0);
    assert_eq!(q.push(5), Ok(()));
}

#[test]
fn sample_scaling_and_mixing() {
    assert_eq!(scale(1000, UNITY_GAIN), 1000);
    assert_eq!(scale(1000, UNITY_GAIN / 2), 500);
    assert_eq!(scale(-1001, UNITY_GAIN / 2), -500);
    assert_eq!(scale(i32::MAX, UNITY_GAIN * 2), i32::MAX);
    assert_eq!(scale(i32::MIN, UNITY_GAIN * 2), i32::MIN);
    assert_eq!(mix(i32::MAX, 1), i32::MAX);
    assert_eq!(mix(-5, 3), -2);
}

#[test]
fn track_builder_defaults_and_setters() {
    let b = TrackBuilder::new();
    assert_eq!(b.volume, UNITY_GAIN);
    assert_eq!(b.routes.routes, vec![Route { track: TrackId::Main, volume: UNITY_GAIN }]);
    assert!(b.effects.is_empty());
    let mut b = TrackBuilder::default().volume(100);
    assert_eq!(b.volume, 100);
    assert_eq!(b.add_effect(Effect::Gain(5)), 0);
    assert_eq!(b.add_effect(Effect::Gain(6)), 1);
    assert_eq!(b.effects, vec![Effect::Gain(5), Effect::Gain(6)]);
    let r = TrackRoutes::new().with_route(TrackId::Sub(0), 7).with_route(TrackId::Main, 9);
    assert_eq!(r.routes, vec![Route { track: TrackId::Main, volume: 9 }, Route { track: TrackId::Sub(0), volume: 7 }]);
    let b = b.routes(r);
    assert_eq!(b.routes.routes.len(), 2);
}

#[test]
fn sub_track_at_unity_passes_samples_through() {
    let mut m = Mixer::new(4, 4);
    let t1 = m.add_sub_track(TrackBuilder::new()).unwrap();
    assert_eq!(t1, TrackId::Sub(0));
    let block = vec![250, 250, 250, 250];
    assert!(m.add_input(t1, &block));
    let out = m.render();
    assert_eq!(out, block);
    assert_eq!(m.render(), vec![0, 0, 0, 0]);
}

#[test]
fn routes_only_go_to_older_tracks() {
    let mut m = Mixer::new(2, 2);
    let bad = TrackBuilder::new().routes(TrackRoutes::new().with_route(TrackId::Sub(0), UNITY_GAIN));
    assert_eq!(m.add_sub_track(bad), Err(MixerError::RouteNotUpstream));
    let a = m.add_sub_track(TrackBuilder::new()).unwrap();
    let routes = TrackRoutes { routes: vec![Route { track: a, volume: UNITY_GAIN / 2 }] };
    let b = m.add_sub_track(TrackBuilder::new().routes(routes)).unwrap();
    assert_eq!(b, TrackId::Sub(1));
    assert_eq!(m.add_sub_track(TrackBuilder::new()), Err(MixerError::CapacityExceeded));
    assert!(!m.add_input(TrackId::Sub(5), &vec![1, 1]));
    assert!(!m.add_input(b, &vec![1, 1, 1]));
    assert!(m.add_input(b, &vec![400, -400]));
    assert!(m.add_input(a, &vec![10, 10]));
    assert_eq!(m.render(), vec![210, -190]);
}

#[test]
fn effects_run_in_order_before_volume() {
    let mut m = Mixer::new(1, 1);
    let mut builder = TrackBuilder::new().volume(UNITY_GAIN / 2);
    builder.add_effect(Effect::Gain(UNITY_GAIN * 4));
    let t = m.add_sub_track(builder).unwrap();
    assert!(m.add_input(t, &vec![100]));
    assert_eq!(m.render(), vec![200]);
}

#[test]
fn looping_instance_wraps_into_loop() {
    let settings = InstanceSettings::new().start_position(19).loop_start(InstanceLoopStart::Custom(5));
    let mut inst = Instance::new(settings, 20, None).unwrap();
    inst.advance(2);
    assert_eq!(inst.position, 6);
    assert_eq!(inst.state, PlaybackState::Playing);
    assert_eq!(wrap_position(21, Some(5), 20), Some(6));
    assert_eq!(wrap_position(21, None, 20), None);
}

#[test]
fn instance_without_loop_stops_at_end() {
    let settings = InstanceSettings::default().start_position(8).loop_start(InstanceLoopStart::NoLoop);
    let mut inst = Instance::new(settings, 10, Some(2)).unwrap();
    inst.advance(4);
    assert_eq!(inst.state, PlaybackState::Stopped);
    assert!(Instance::new(InstanceSettings::new().start_position(10), 10, None).is_none());
    assert!(Instance::new(InstanceSettings::new().loop_start(InstanceLoopStart::Custom(10)), 10, None).is_none());
}

#[test]
fn stopping_fades_down_then_stops() {
    let settings = InstanceSettings::new().track(TrackId::Sub(0)).start_time(StartTime::Immediate);
    let mut inst = Instance::new(settings, 1000, Some(0)).unwrap();
    inst.stop(4);
    assert_eq!(inst.state, PlaybackState::Stopping);
    let mut last = inst.fade.value();
    assert_eq!(last, UNITY_GAIN as i32);
    for _ in 0..3 {
        inst.advance(1);
        let now = inst.fade.value();
        assert!(now < last);
        last = now;
        assert_eq!(inst.state, PlaybackState::Stopping);
    }
    inst.advance(1);
    assert_eq!(inst.fade.value(), 0);
    assert_eq!(inst.state, PlaybackState::Stopped);
}

#[test]
fn pause_and_resume_fade() {
    let mut inst = Instance::new(InstanceSettings::new(), 100, None).unwrap();
    inst.pause(2);
    assert_eq!(inst.state, PlaybackState::Pausing);
    inst.advance(2);
    assert_eq!(inst.state, PlaybackState::Paused);
    let at = inst.position;
    inst.advance(5);
    assert_eq!(inst.position, at);
    inst.resume(0);
    assert_eq!(inst.state, PlaybackState::Playing);
    assert_eq!(inst.fade.value(), UNITY_GAIN as i32);
}

#[test]
fn instance_renders_its_sound() {
    let sound: Vec<i32> = vec![1, 2, 3, 4, 5, 6];
    let settings = InstanceSettings::new().start_position(3).loop_start(InstanceLoopStart::Custom(2));
    let inst = Instance::new(settings, 6, None).unwrap();
    assert_eq!(inst.render(&sound, 5), stereo(&[4, 5, 6, 3, 4]));
    let half = Instance::new(InstanceSettings::new().volume(Value::Fixed((UNITY_GAIN / 2) as i32)).playback_rate(Value::Fixed((UNITY_GAIN * 2) as i32)), 6, None).unwrap();
    assert_eq!(half.render(&sound, 4), stereo(&[0, 1, 2, 0]));
}

#[test]
fn loop_start_choices() {
    assert_eq!(InstanceLoopStart::default().as_option(Some(3)), Some(3));
    assert_eq!(InstanceLoopStart::Custom(1).as_option(Some(3)), Some(1));
    assert_eq!(InstanceLoopStart::NoLoop.as_option(Some(3)), None);
    assert_eq!(InstanceLoopStart::from_option(Some(4)), InstanceLoopStart::Custom(4));
    assert_eq!(InstanceLoopStart::from_option(None), InstanceLoopStart::NoLoop);
}

#[test]
fn clock_counts_ticks_only_while_started() {
    let mut c = Clock::new(SUBTICKS_PER_TICK as u32 / 2);
    let r = c.advance(4);
    assert_eq!(r.first, r.end);
    assert_eq!(c.subticks, 0);
    c.start();
    let r = c.advance(4);
    assert_eq!((r.first, r.end), (1, 3));
    c.pause();
    assert_eq!(c.state, ClockState::Paused);
    let r = c.advance(4);
    assert_eq!(r.first, r.end);
    c.start();
    c.set_speed(SUBTICKS_PER_TICK as u32, 0);
    let r = c.advance(1);
    assert_eq!((r.first, r.end), (3, 4));
    c.stop();
    assert_eq!(c.subticks, 0);
    assert_eq!(c.state, ClockState::Stopped);
}

#[test]
fn fractional_rate_keeps_the_fraction() {
    let settings = InstanceSettings::new().playback_rate(Value::Fixed((UNITY_GAIN + UNITY_GAIN / 2) as i32));
    let mut inst = Instance::new(settings, 100, None).unwrap();
    for _ in 0..4 {
        inst.advance(1);
    }
    assert_eq!(inst.position, 6);
    assert_eq!(inst.subframe, 0);
    inst.advance(1);
    assert_eq!(inst.position, 7);
    assert_eq!(inst.subframe, UNITY_GAIN / 2);
    inst.seek_to(3);
    assert_eq!((inst.position, inst.subframe), (3, 0));
}

#[test]
fn reverse_playback_runs_backwards_and_wraps() {
    let sound: Vec<i32> = vec![1, 2, 3, 4, 5, 6];
    let plain = Instance::new(InstanceSettings::new().start_position(5).loop_start(InstanceLoopStart::NoLoop).reverse(), 6, None).unwrap();
    assert_eq!(plain.render(&sound, 3), stereo(&[6, 5, 4]));
    assert_eq!(plain.render(&sound, 8), stereo(&[6, 5, 4, 3, 2, 1, 0, 0]));
    let looped = InstanceSettings::new().start_position(3).loop_start(InstanceLoopStart::Custom(2)).reverse();
    let mut inst = Instance::new(looped, 6, None).unwrap();
    assert_eq!(inst.render(&sound, 4), stereo(&[4, 3, 6, 5]));
    inst.advance(3);
    assert_eq!(inst.position, 4);
    let mut ending = Instance::new(InstanceSettings::new().start_position(1).loop_start(InstanceLoopStart::NoLoop).reverse(), 6, None).unwrap();
    ending.advance(2);
    assert_eq!(ending.state, PlaybackState::Stopped);
}
