//! The mixer graph: tracks that sum their inputs, run an effect chain and
//! send the result on to other tracks, ending at the main track.
//!
//! Cycles are ruled out when a track is added: a sub track may send only to
//! the main track or to a sub track added before it. Processing the sub
//! tracks from the newest to the oldest, then the main track, therefore
//! finishes every track before any track it sends to.
use crate::sample::{scale_block, scaled, send_into, UNITY_GAIN};
use vstd::prelude::*;

verus! {

/// Names a track of a mixer.
#[derive(Debug, Clone, Copy, PartialEq, Eq, Structural, Hash)]
pub enum TrackId {
    Main,
    Sub(usize),
}

/// One send: a destination track and the gain applied on the way.
#[derive(Debug, Clone, Copy, PartialEq, Eq, Structural)]
pub struct Route {
    pub track: TrackId,
    pub volume: u32,
}

/// A transform of one block of samples.
#[derive(Debug, Clone, Copy, PartialEq, Eq, Structural)]
pub enum Effect {
    /// Scales every sample by a gain.
    Gain(u32),
}

/// What `effect` makes of `block`.
pub open spec fn effect_output(effect: Effect, block: Seq<i32>) -> Seq<i32> {
    match effect {
        Effect::Gain(g) => Seq::new(block.len(), |i: int| scaled(block[i] as int, g as nat) as i32),
    }
}

/// What a chain of effects, run in order, makes of `block`.
pub open spec fn chain_output(effects: Seq<Effect>, block: Seq<i32>) -> Seq<i32>
    decreases effects.len(),
{
    if effects.len() == 0 {
        block
    } else {
        effect_output(effects.last(), chain_output(effects.drop_last(), block))
    }
}

proof fn lemma_chain_len(effects: Seq<Effect>, block: Seq<i32>)
    ensures
        chain_output(effects, block).len() == block.len(),
    decreases effects.len(),
{
    if effects.len() > 0 {
        lemma_chain_len(effects.drop_last(), block);
        match effects.last() {
            Effect::Gain(_) => {},
        }
    }
}

impl Effect {
    /// Rewrites `block` with this effect's output.
    pub fn process(&self, block: &mut Vec<i32>)
        ensures
            final(block)@ == effect_output(*self, old(block)@),
    {
        match self {
            Effect::Gain(g) => {
                scale_block(block, *g);
                assert(block@ =~= effect_output(*self, old(block)@));
            },
        }
    }
}

/// Runs `effects` over `block`, in order.
pub fn run_chain(effects: &Vec<Effect>, block: &mut Vec<i32>)
    ensures
        final(block)@ == chain_output(effects@, old(block)@),
{
    let mut i: usize = 0;
    while i < effects.len()
        invariant
            i <= effects@.len(),
            block@ == chain_output(effects@.take(i as int), old(block)@),
        decreases effects@.len() - i,
    {
        assert(effects@.take(i as int + 1).drop_last() =~= effects@.take(i as int));
        effects[i].process(block);
        i = i + 1;
    }
    assert(effects@.take(effects@.len() as int) =~= effects@);
}

/// The routes of `routes` with the send to `track` set to `volume`: the
/// existing send is changed in place, or a new one is added at the end.
pub open spec fn routes_with(routes: Seq<Route>, track: TrackId, volume: u32) -> Seq<Route> {
    if exists|i: int| 0 <= i < routes.len() && routes[i].track == track {
        let i = choose|i: int| 0 <= i < routes.len() && routes[i].track == track;
        routes.update(i, Route { track, volume })
    } else {
        routes.push(Route { track, volume })
    }
}

/// No two routes share a destination.
pub open spec fn distinct_destinations(routes: Seq<Route>) -> bool {
    forall|i: int, j: int| 0 <= i < j < routes.len() ==> routes[i].track != routes[j].track
}

/// `routes` with every send to `to` set to `volume`, or, when there is
/// none, a send to `to` added at the end.
pub open spec fn route_set_seq(routes: Seq<Route>, to: TrackId, volume: u32) -> Seq<Route> {
    if exists|j: int| 0 <= j < routes.len() && routes[j].track == to {
        Seq::new(routes.len(), |j: int| if routes[j].track == to { Route { track: to, volume } } else { routes[j] })
    } else {
        routes.push(Route { track: to, volume })
    }
}

/// Where the output of a track goes, with the gain of each send.
#[derive(Debug, PartialEq, Eq)]
pub struct TrackRoutes {
    pub routes: Vec<Route>,
}

impl TrackRoutes {
    /// A single send to the main track at unity gain.
    pub fn new() -> (r: TrackRoutes)
        ensures
            r.routes@ == seq![Route { track: TrackId::Main, volume: UNITY_GAIN }],
    {
        TrackRoutes { routes: vec![Route { track: TrackId::Main, volume: UNITY_GAIN }] }
    }

    /// Sets the send to `track` to `volume`.
    pub fn with_route(self, track: TrackId, volume: u32) -> (r: TrackRoutes)
        requires
            distinct_destinations(self.routes@),
        ensures
            r.routes@ == routes_with(self.routes@, track, volume),
            distinct_destinations(r.routes@),
    {
        let mut routes = self.routes;
        let n = routes.len();
        let mut i: usize = 0;
        while i < n
            invariant
                routes@ == self.routes@,
                distinct_destinations(self.routes@),
                n == routes@.len(),
                i <= n,
                forall|j: int| 0 <= j < i ==> routes@[j].track != track,
            decreases n - i,
        {
            if routes[i].track == track {
                let ghost old_routes = routes@;
                routes.set(i, Route { track, volume });
                proof {
                    let k = choose|k: int| 0 <= k < old_routes.len() && old_routes[k].track == track;
                    assert(k == i);
                    assert(routes@ =~= routes_with(self.routes@, track, volume));
                }
                return TrackRoutes { routes };
            }
            i = i + 1;
        }
        routes.push(Route { track, volume });
        TrackRoutes { routes }
    }
}

/// Configures a mixer track: its volume, its sends and its effects.
#[derive(Debug, PartialEq, Eq)]
pub struct TrackBuilder {
    /// The gain applied to the track's output.
    pub volume: u32,
    /// Where the track's output goes.
    pub routes: TrackRoutes,
    /// The effects run over the track's input, in order.
    pub effects: Vec<Effect>,
}

impl TrackBuilder {
    /// Unity volume, one send to the main track, no effects.
    pub fn new() -> (r: TrackBuilder)
        ensures
            r.volume == UNITY_GAIN,
            r.routes.routes@ == seq![Route { track: TrackId::Main, volume: UNITY_GAIN }],
            r.effects@ == Seq::<Effect>::empty(),
    {
        TrackBuilder { volume: UNITY_GAIN, routes: TrackRoutes::new(), effects: Vec::new() }
    }

    /// Sets the volume of the track.
    pub fn volume(self, volume: u32) -> (r: TrackBuilder)
        ensures
            r.volume == volume,
            r.routes == self.routes,
            r.effects@ == self.effects@,
    {
        TrackBuilder { volume, ..self }
    }

    /// Sets where the track's output goes.
    pub fn routes(self, routes: TrackRoutes) -> (r: TrackBuilder)
        ensures
            r.volume == self.volume,
            r.routes == routes,
            r.effects@ == self.effects@,
    {
        TrackBuilder { routes, ..self }
    }

    /// Appends an effect to the chain and returns its place in the chain.
    pub fn add_effect(&mut self, effect: Effect) -> (r: usize)
        requires
            old(self).effects@.len() < usize::MAX,
        ensures
            r == old(self).effects@.len(),
            final(self).effects@ == old(self).effects@.push(effect),
            final(self).volume == old(self).volume,
            final(self).routes == old(self).routes,
    {
        let r = self.effects.len();
        self.effects.push(effect);
        r
    }
}

impl Default for TrackBuilder {
    fn default() -> (r: TrackBuilder)
        ensures
            r.volume == UNITY_GAIN,
            r.routes.routes@ == seq![Route { track: TrackId::Main, volume: UNITY_GAIN }],
            r.effects@ == Seq::<Effect>::empty(),
    {
        TrackBuilder::new()
    }
}

/// Why a mixer refused a track.
#[derive(Debug, Clone, Copy, PartialEq, Eq, Structural)]
pub enum MixerError {
    /// The mixer holds as many sub tracks as it was made for.
    CapacityExceeded,
    /// A send goes to a sub track that is not older than the new track.
    RouteNotUpstream,
}

/// A sub track numbered `from` may send to `to`.
pub open spec fn route_allowed(to: TrackId, from: nat) -> bool {
    match to {
        TrackId::Main => true,
        TrackId::Sub(j) => j < from,
    }
}

/// Every send of a track numbered `from` is allowed.
pub open spec fn routes_allowed(routes: Seq<Route>, from: nat) -> bool {
    forall|i: int| 0 <= i < routes.len() ==> route_allowed(routes[i].track, from)
}

/// When a track is processed in a block of a mixer with `n` sub tracks:
/// the newest sub track first, the main track last.
pub open spec fn process_position(t: TrackId, n: nat) -> int {
    match t {
        TrackId::Main => n as int,
        TrackId::Sub(k) => n - 1 - k,
    }
}

/// A mixing node: the gain on its output, its sends, and its effects.
#[derive(Debug, PartialEq, Eq)]
pub struct Track {
    pub volume: u32,
    pub routes: Vec<Route>,
    pub effects: Vec<Effect>,
}

/// The buffer slot of a track: the main track first, then the sub tracks.
pub open spec fn buffer_slot(t: TrackId) -> int {
    match t {
        TrackId::Main => 0,
        TrackId::Sub(k) => k + 1,
    }
}

/// A mixer of a main track and a bounded number of sub tracks, each with a
/// buffer of one block that gathers its input.
#[derive(Debug)]
pub struct Mixer {
    main: Track,
    subs: Vec<Track>,
    buffers: Vec<Vec<i32>>,
    max_sub_tracks: usize,
    block_len: usize,
}

/// `block_len` silent samples.
fn silence(block_len: usize) -> (r: Vec<i32>)
    ensures
        r@ == Seq::new(block_len as nat, |i: int| 0i32),
{
    let mut v: Vec<i32> = Vec::with_capacity(block_len);
    let mut i: usize = 0;
    while i < block_len
        invariant
            i <= block_len,
            v@ == Seq::new(i as nat, |j: int| 0i32),
        decreases block_len - i,
    {
        v.push(0);
        i = i + 1;
        assert(v@ =~= Seq::new(i as nat, |j: int| 0i32));
    }
    v
}

/// Sets every sample of `block` to zero.
fn clear(block: &mut Vec<i32>)
    ensures
        final(block)@ == Seq::new(old(block)@.len(), |i: int| 0i32),
{
    let n = block.len();
    let mut i: usize = 0;
    while i < n
        invariant
            i <= n,
            block@.len() == n,
            n == old(block)@.len(),
            forall|j: int| 0 <= j < i ==> block@[j] == 0,
        decreases n - i,
    {
        block.set(i, 0);
        i = i + 1;
    }
    assert(block@ =~= Seq::new(old(block)@.len(), |i: int| 0i32));
}

impl Mixer {
    pub closed spec fn spec_main(&self) -> Track {
        self.main
    }

    /// The sub tracks, oldest first.
    pub closed spec fn spec_subs(&self) -> Seq<Track> {
        self.subs@
    }

    /// The input gathered so far this block by each track, in buffer slots.
    pub closed spec fn spec_buffers(&self) -> Seq<Seq<i32>> {
        self.buffers@.map_values(|b: Vec<i32>| b@)
    }

    pub closed spec fn spec_max_sub_tracks(&self) -> nat {
        self.max_sub_tracks as nat
    }

    pub closed spec fn spec_block_len(&self) -> nat {
        self.block_len as nat
    }

    /// Sends only go to older tracks, and every buffer holds one block.
    pub open spec fn wf(&self) -> bool {
        &&& self.spec_subs().len() <= self.spec_max_sub_tracks()
        &&& self.spec_max_sub_tracks() < usize::MAX
        &&& self.spec_buffers().len() == self.spec_subs().len() + 1
        &&& forall|i: int| 0 <= i < self.spec_buffers().len()
            ==> self.spec_buffers()[i].len() == self.spec_block_len()
        &&& forall|k: int| 0 <= k < self.spec_subs().len()
            ==> routes_allowed(self.spec_subs()[k].routes@, k as nat)
    }

    /// `t` names a track of this mixer.
    pub open spec fn has_track(&self, t: TrackId) -> bool {
        match t {
            TrackId::Main => true,
            TrackId::Sub(k) => k < self.spec_subs().len(),
        }
    }

    /// A mixer with a main track of unity volume and no effects, room for
    /// `max_sub_tracks` sub tracks, and blocks of `block_len` samples.
    pub fn new(block_len: usize, max_sub_tracks: usize) -> (r: Mixer)
        requires
            max_sub_tracks < usize::MAX,
        ensures
            r.wf(),
            r.spec_subs().len() == 0,
            r.spec_main().volume == UNITY_GAIN,
            r.spec_main().routes@.len() == 0,
            r.spec_main().effects@.len() == 0,
            r.spec_block_len() == block_len,
            r.spec_max_sub_tracks() == max_sub_tracks,
            r.spec_buffers() == seq![Seq::new(block_len as nat, |i: int| 0i32)],
    {
        let mut buffers: Vec<Vec<i32>> = Vec::with_capacity(max_sub_tracks + 1);
        buffers.push(silence(block_len));
        let r = Mixer {
            main: Track { volume: UNITY_GAIN, routes: Vec::new(), effects: Vec::new() },
            subs: Vec::with_capacity(max_sub_tracks),
            buffers,
            max_sub_tracks,
            block_len,
        };
        assert(r.spec_buffers() =~= seq![Seq::new(block_len as nat, |i: int| 0i32)]);
        r
    }

    /// The number of samples in a block.
    pub fn block_len(&self) -> (r: usize)
        ensures
            r == self.spec_block_len(),
    {
        self.block_len
    }

    /// Adds a sub track built by `builder`. It is refused when the mixer is
    /// full, or when one of its sends goes to a sub track that is not older.
    pub fn add_sub_track(&mut self, builder: TrackBuilder) -> (r: Result<TrackId, MixerError>)
        requires
            old(self).wf(),
        ensures
            final(self).wf(),
            final(self).spec_main() == old(self).spec_main(),
            final(self).spec_block_len() == old(self).spec_block_len(),
            final(self).spec_max_sub_tracks() == old(self).spec_max_sub_tracks(),
            r == Err::<TrackId, MixerError>(MixerError::CapacityExceeded)
                <==> old(self).spec_subs().len() == old(self).spec_max_sub_tracks(),
            r == Err::<TrackId, MixerError>(MixerError::RouteNotUpstream) <==> (
                old(self).spec_subs().len() < old(self).spec_max_sub_tracks()
                && !routes_allowed(builder.routes.routes@, old(self).spec_subs().len())),
            r is Err ==> final(self).spec_subs() == old(self).spec_subs()
                && final(self).spec_buffers() == old(self).spec_buffers(),
            r is Ok ==> {
                &&& r == Ok::<TrackId, MixerError>(TrackId::Sub(old(self).spec_subs().len() as usize))
                &&& final(self).spec_subs() == old(self).spec_subs().push(
                    Track { volume: builder.volume, routes: builder.routes.routes, effects: builder.effects })
                &&& final(self).spec_buffers() == old(self).spec_buffers().push(
                    Seq::new(old(self).spec_block_len(), |i: int| 0i32))
            },
    {
        let n = self.subs.len();
        if n >= self.max_sub_tracks {
            return Err(MixerError::CapacityExceeded);
        }
        let mut i: usize = 0;
        while i < builder.routes.routes.len()
            invariant
                i <= builder.routes.routes@.len(),
                n == old(self).spec_subs().len(),
                *self == *old(self),
                self.wf(),
                n < self.spec_max_sub_tracks(),
                forall|j: int| 0 <= j < i ==> route_allowed(builder.routes.routes@[j].track, n as nat),
            decreases builder.routes.routes@.len() - i,
        {
            match builder.routes.routes[i].track {
                TrackId::Main => {},
                TrackId::Sub(j) => {
                    if j >= n {
                        return Err(MixerError::RouteNotUpstream);
                    }
                },
            }
            i = i + 1;
        }
        let TrackBuilder { volume, routes, effects } = builder;
        self.subs.push(Track { volume, routes: routes.routes, effects });
        self.buffers.push(silence(self.block_len));
        proof {
            assert(self.spec_buffers() =~= old(self).spec_buffers().push(
                Seq::new(old(self).spec_block_len(), |i: int| 0i32)));
            assert forall|k: int| 0 <= k < self.spec_subs().len()
                implies routes_allowed(self.spec_subs()[k].routes@, k as nat) by {
                if k < n {
                    assert(self.spec_subs()[k] == old(self).spec_subs()[k]);
                }
            }
        }
        Ok(TrackId::Sub(n))
    }

    /// Sets the volume of track `t`; an unknown track is left alone.
    pub fn set_track_volume(&mut self, t: TrackId, volume: u32) -> (r: bool)
        requires
            old(self).wf(),
        ensures
            final(self).wf(),
            final(self).spec_buffers() == old(self).spec_buffers(),
            final(self).spec_block_len() == old(self).spec_block_len(),
            final(self).spec_max_sub_tracks() == old(self).spec_max_sub_tracks(),
            r <==> old(self).has_track(t),
            !r ==> *final(self) == *old(self),
            r && t == TrackId::Main ==> final(self).spec_main() == (Track { volume, ..old(self).spec_main() })
                && final(self).spec_subs() == old(self).spec_subs(),
            r && t is Sub ==> final(self).spec_main() == old(self).spec_main()
                && final(self).spec_subs() == old(self).spec_subs().update(t->Sub_0 as int,
                    Track { volume, ..old(self).spec_subs()[t->Sub_0 as int] }),
    {
        match t {
            TrackId::Main => {
                self.main.volume = volume;
                true
            },
            TrackId::Sub(k) => {
                if k >= self.subs.len() {
                    return false;
                }
                let mut track = Track { volume: 0, routes: Vec::new(), effects: Vec::new() };
                std::mem::swap(&mut track, &mut self.subs[k]);
                track.volume = volume;
                std::mem::swap(&mut track, &mut self.subs[k]);
                proof {
                    assert(self.spec_subs() =~= old(self).spec_subs().update(k as int,
                        Track { volume, ..old(self).spec_subs()[k as int] }));
                    assert forall|j: int| 0 <= j < self.spec_subs().len()
                        implies routes_allowed(self.spec_subs()[j].routes@, j as nat) by {
                        assert(self.spec_subs()[j].routes == old(self).spec_subs()[j].routes);
                    }
                }
                true
            },
        }
    }

    /// Sets the send from sub track `from` to `to` to `volume`: every send
    /// of `from` to `to` takes that volume, or a new send is added at the
    /// end. A send from the main track or an unknown track, or one to a
    /// track that is not older than `from`, is refused.
    pub fn set_route(&mut self, from: TrackId, to: TrackId, volume: u32) -> (r: Result<(), MixerError>)
        requires
            old(self).wf(),
        ensures
            final(self).wf(),
            final(self).spec_buffers() == old(self).spec_buffers(),
            final(self).spec_block_len() == old(self).spec_block_len(),
            final(self).spec_max_sub_tracks() == old(self).spec_max_sub_tracks(),
            final(self).spec_main() == old(self).spec_main(),
            r is Ok <==> from is Sub && from->Sub_0 < old(self).spec_subs().len()
                && route_allowed(to, from->Sub_0 as nat),
            r is Err ==> *final(self) == *old(self),
            r is Ok ==> {
                let k = from->Sub_0 as int;
                &&& final(self).spec_subs().len() == old(self).spec_subs().len()
                &&& forall|j: int| 0 <= j < old(self).spec_subs().len() && j != k
                    ==> final(self).spec_subs()[j] == old(self).spec_subs()[j]
                &&& final(self).spec_subs()[k].volume == old(self).spec_subs()[k].volume
                &&& final(self).spec_subs()[k].effects == old(self).spec_subs()[k].effects
                &&& final(self).spec_subs()[k].routes@ == route_set_seq(old(self).spec_subs()[k].routes@, to, volume)
            },
    {
        let k = match from {
            TrackId::Main => {
                return Err(MixerError::RouteNotUpstream);
            },
            TrackId::Sub(k) => k,
        };
        if k >= self.subs.len() {
            return Err(MixerError::RouteNotUpstream);
        }
        match to {
            TrackId::Main => {},
            TrackId::Sub(j) => {
                if j >= k {
                    return Err(MixerError::RouteNotUpstream);
                }
            },
        }
        let mut track = Track { volume: 0, routes: Vec::new(), effects: Vec::new() };
        std::mem::swap(&mut track, &mut self.subs[k]);
        let ghost old_routes = track.routes;
        let ghost old_track = track;
        let ghost subs_mid = self.subs@;
        let mut i: usize = 0;
        let mut found = false;
        let n = track.routes.len();
        while i < n
            invariant
                n == old_routes@.len(),
                track.routes@.len() == n,
                i <= n,
                found <==> exists|j: int| 0 <= j < i && old_routes@[j].track == to,
                forall|j: int| 0 <= j < i ==> track.routes@[j] == (if old_routes@[j].track == to {
                    Route { track: to, volume }
                } else {
                    old_routes@[j]
                }),
                forall|j: int| i <= j < n ==> track.routes@[j] == old_routes@[j],
                track.volume == old_track.volume,
                track.effects == old_track.effects,
                self.subs@ == subs_mid,
            decreases n - i,
        {
            if track.routes[i].track == to {
                track.routes.set(i, Route { track: to, volume });
                found = true;
            }
            i = i + 1;
        }
        if !found {
            track.routes.push(Route { track: to, volume });
        }
        proof {
            assert(track.routes@ =~= route_set_seq(old_routes@, to, volume));
        }
        std::mem::swap(&mut track, &mut self.subs[k]);
        proof {
            assert(old_track == old(self).spec_subs()[k as int]);
            assert(self.spec_subs()[k as int].volume == old(self).spec_subs()[k as int].volume);
            assert(self.spec_subs()[k as int].effects == old(self).spec_subs()[k as int].effects);
            assert forall|j: int| 0 <= j < old(self).spec_subs().len() && j != k
                implies self.spec_subs()[j] == old(self).spec_subs()[j] by {
                assert(subs_mid[j] == old(self).subs@[j]);
            }
            assert(self.spec_subs()[k as int].routes@ == route_set_seq(old(self).spec_subs()[k as int].routes@, to, volume));
            assert forall|j: int| 0 <= j < self.spec_subs().len()
                implies routes_allowed(self.spec_subs()[j].routes@, j as nat) by {
                if j == k {
                    let rs = self.spec_subs()[j].routes@;
                    assert forall|x: int| 0 <= x < rs.len() implies route_allowed(rs[x].track, j as nat) by {
                        if x < n {
                            assert(route_allowed(old(self).spec_subs()[j].routes@[x].track, j as nat));
                        }
                    }
                } else {
                    assert(self.spec_subs()[j] == old(self).spec_subs()[j]);
                }
            }
        }
        Ok(())
    }

    /// Adds `block` into the input of track `t`. An unknown track or a
    /// block of the wrong length is skipped, leaving that path silent.
    pub fn add_input(&mut self, t: TrackId, block: &Vec<i32>) -> (r: bool)
        requires
            old(self).wf(),
        ensures
            final(self).wf(),
            final(self).spec_main() == old(self).spec_main(),
            final(self).spec_subs() == old(self).spec_subs(),
            final(self).spec_block_len() == old(self).spec_block_len(),
            final(self).spec_max_sub_tracks() == old(self).spec_max_sub_tracks(),
            r <==> old(self).has_track(t) && block@.len() == old(self).spec_block_len(),
            !r ==> final(self).spec_buffers() == old(self).spec_buffers(),
            r ==> final(self).spec_buffers() == old(self).spec_buffers().update(
                buffer_slot(t),
                Seq::new(block@.len(), |i: int| crate::sample::mixed(
                    old(self).spec_buffers()[buffer_slot(t)][i] as int, block@[i] as int) as i32)),
    {
        if block.len() != self.block_len {
            return false;
        }
        let slot = match t {
            TrackId::Main => 0,
            TrackId::Sub(k) => {
                if k >= self.subs.len() {
                    return false;
                }
                k + 1
            },
        };
        proof {
            assert(self.spec_buffers()[slot as int] == self.buffers@[slot as int]@);
        }
        send_into(&mut self.buffers[slot], block, UNITY_GAIN);
        proof {
            assert forall|i: int| 0 <= i < block@.len() implies
                crate::sample::scaled(block@[i] as int, UNITY_GAIN as nat) == block@[i] as int by {
                let s = block@[i] as int;
                if s >= 0 {
                    assert(s * 65536 / 65536 == s) by (nonlinear_arith);
                } else {
                    assert((-s) * 65536 / 65536 == -s) by (nonlinear_arith);
                }
            }
            let expect = old(self).spec_buffers().update(
                buffer_slot(t),
                Seq::new(block@.len(), |i: int| crate::sample::mixed(
                    old(self).spec_buffers()[buffer_slot(t)][i] as int, block@[i] as int) as i32));
            assert(self.buffers@[slot as int]@ =~= expect[slot as int]);
            assert(self.spec_buffers() =~= expect);
        }
        true
    }

    /// Renders one block: each sub track, newest first, runs its effects
    /// over its input, applies its volume and adds the result, scaled by each
    /// send's gain, into the tracks it sends to; then the main track runs
    /// its effects and volume, and its output is the block. Every input
    /// buffer is silent again afterwards.
    pub fn render(&mut self) -> (r: Vec<i32>)
        requires
            old(self).wf(),
        ensures
            final(self).wf(),
            final(self).spec_main() == old(self).spec_main(),
            final(self).spec_subs() == old(self).spec_subs(),
            final(self).spec_block_len() == old(self).spec_block_len(),
            final(self).spec_max_sub_tracks() == old(self).spec_max_sub_tracks(),
            forall|i: int| 0 <= i < final(self).spec_buffers().len()
                ==> final(self).spec_buffers()[i] == Seq::new(old(self).spec_block_len(), |j: int| 0i32),
            r@.len() == old(self).spec_block_len(),
            r@ == track_output(old(self).spec_main(),
                after_subs(old(self).spec_subs(), old(self).spec_buffers(), 0)[0]),
    {
        let n = self.subs.len();
        let mut k: usize = n;
        while k > 0
            invariant
                k <= n,
                n == self.spec_subs().len(),
                self.wf(),
                self.spec_main() == old(self).spec_main(),
                self.spec_subs() == old(self).spec_subs(),
                self.spec_block_len() == old(self).spec_block_len(),
                self.spec_max_sub_tracks() == old(self).spec_max_sub_tracks(),
                forall|i: int| k < i <= n
                    ==> self.spec_buffers()[i] == Seq::new(old(self).spec_block_len(), |j: int| 0i32),
                self.spec_buffers() == after_subs(old(self).spec_subs(), old(self).spec_buffers(), k as nat),
            decreases k,
        {
            k = k - 1;
            proof {
                assert forall|i: int| 0 <= i <= n implies self.buffers@[i]@.len() == self.block_len by {
                    assert(self.spec_buffers()[i] == self.buffers@[i]@);
                }
                assert forall|i: int| k + 1 < i <= n
                    implies self.buffers@[i]@ == Seq::new(old(self).spec_block_len(), |j: int| 0i32) by {
                    assert(self.spec_buffers()[i] == self.buffers@[i]@);
                }
            }
            let ghost start = self.spec_buffers();
            proof {
                assert forall|i: int| 0 <= i <= n implies self.buffers@[i]@ == start[i] by {}
            }
            let mut out: Vec<i32> = Vec::new();
            std::mem::swap(&mut out, &mut self.buffers[k + 1]);
            proof {
                lemma_chain_len(self.subs@[k as int].effects@, out@);
            }
            run_chain(&self.subs[k].effects, &mut out);
            scale_block(&mut out, self.subs[k].volume);
            proof {
                assert(out@ =~= track_output(self.subs@[k as int], start[k + 1]));
                assert(self.spec_subs()[k as int].routes@.take(0) =~= Seq::<Route>::empty());
            }
            let m = self.subs[k].routes.len();
            let mut r: usize = 0;
            while r < m
                invariant
                    k < n,
                    n == self.spec_subs().len(),
                    m == self.spec_subs()[k as int].routes@.len(),
                    routes_allowed(self.spec_subs()[k as int].routes@, k as nat),
                    self.buffers@.len() == n + 1,
                    out@.len() == self.block_len,
                    forall|i: int| 0 <= i <= n && i != k + 1 ==> self.buffers@[i]@.len() == self.block_len,
                    forall|i: int| k + 1 < i <= n
                        ==> self.buffers@[i]@ == Seq::new(old(self).spec_block_len(), |j: int| 0i32),
                    self.spec_main() == old(self).spec_main(),
                    self.spec_subs() == old(self).spec_subs(),
                    self.spec_block_len() == old(self).spec_block_len(),
                    self.spec_max_sub_tracks() == old(self).spec_max_sub_tracks(),
                    self.spec_subs().len() <= self.spec_max_sub_tracks(),
                    self.spec_max_sub_tracks() < usize::MAX,
                    r <= m,
                    start.len() == n + 1,
                    forall|i: int| 0 <= i <= n ==> start[i].len() == self.block_len,
                    out@ == track_output(self.spec_subs()[k as int], start[k + 1]),
                    forall|i: int| 0 <= i <= n && i != k + 1 ==> self.buffers@[i]@
                        == after_sends(start, self.spec_subs()[k as int].routes@.take(r as int), out@)[i],
                decreases m - r,
            {
                let route = self.subs[k].routes[r];
                assert(route_allowed(route.track, k as nat));
                let slot: usize = match route.track {
                    TrackId::Main => 0,
                    TrackId::Sub(j) => j + 1,
                };
                let ghost routes = self.spec_subs()[k as int].routes@;
                let ghost prev = after_sends(start, routes.take(r as int), out@);
                proof {
                    lemma_sends_keep_lengths(start, routes.take(r as int), out@, k as nat);
                    assert(routes.take(r as int + 1).drop_last() =~= routes.take(r as int));
                    assert(routes.take(r as int + 1).last() == route);
                }
                send_into(&mut self.buffers[slot], &out, route.volume);
                proof {
                    let next = after_sends(start, routes.take(r as int + 1), out@);
                    assert(self.buffers@[slot as int]@ =~= next[slot as int]);
                    assert forall|i: int| 0 <= i <= n && i != k + 1 implies self.buffers@[i]@ == next[i] by {
                        if i != slot {
                            assert(next[i] == prev[i]);
                        }
                    }
                }
                r = r + 1;
            }
            clear(&mut out);
            std::mem::swap(&mut out, &mut self.buffers[k + 1]);
            proof {
                let routes = self.spec_subs()[k as int].routes@;
                assert(routes.take(m as int) =~= routes);
                lemma_sends_keep_lengths(start, routes, track_output(self.spec_subs()[k as int], start[k + 1]), k as nat);
                assert(self.spec_buffers() =~= after_track(self.spec_subs(), start, k as int));
                assert(after_subs(old(self).spec_subs(), old(self).spec_buffers(), k as nat)
                    == after_track(self.spec_subs(), start, k as int));
                assert forall|i: int| 0 <= i < self.spec_buffers().len()
                    implies self.spec_buffers()[i].len() == self.spec_block_len() by {
                    assert(self.spec_buffers()[i] == self.buffers@[i]@);
                }
                assert forall|i: int| k < i <= n
                    implies self.spec_buffers()[i] == Seq::new(old(self).spec_block_len(), |j: int| 0i32) by {
                    assert(self.spec_buffers()[i] == self.buffers@[i]@);
                }
            }
        }
        proof {
            assert(self.spec_buffers()[0] == self.buffers@[0]@);
        }
        let ghost before = self.spec_buffers();
        let ghost bufs_before = self.buffers@;
        let mut out: Vec<i32> = silence(self.block_len);
        std::mem::swap(&mut out, &mut self.buffers[0]);
        proof {
            assert(self.buffers@[0]@ == Seq::new(old(self).spec_block_len(), |j: int| 0i32));
            assert(self.spec_buffers()[0] == self.buffers@[0]@);
            assert forall|i: int| 0 <= i < self.spec_buffers().len()
                implies self.spec_buffers()[i] == Seq::new(old(self).spec_block_len(), |j: int| 0i32) by {
                assert(self.spec_buffers()[i] == self.buffers@[i]@);
                if i > 0 {
                    assert(self.buffers@[i] == bufs_before[i]);
                    assert(before[i] == bufs_before[i]@);
                }
            }
            assert forall|i: int| 0 <= i < self.spec_buffers().len()
                implies self.spec_buffers()[i].len() == self.spec_block_len() by {
                assert(self.spec_buffers()[i] == self.buffers@[i]@);
            }
        }
        let ghost input = out@;
        proof {
            lemma_chain_len(self.main.effects@, out@);
        }
        run_chain(&self.main.effects, &mut out);
        scale_block(&mut out, self.main.volume);
        proof {
            assert(out@ =~= track_output(self.main, input));
        }
        out
    }
}

/// `target` with `source`, scaled by `gain`, added in.
pub open spec fn sent(target: Seq<i32>, source: Seq<i32>, gain: u32) -> Seq<i32> {
    Seq::new(target.len(), |i: int| crate::sample::mixed(target[i] as int, scaled(source[i] as int, gain as nat)) as i32)
}

/// The buffers after `out` is sent along each of `routes`, in order.
pub open spec fn after_sends(bufs: Seq<Seq<i32>>, routes: Seq<Route>, out: Seq<i32>) -> Seq<Seq<i32>>
    decreases routes.len(),
{
    if routes.len() == 0 {
        bufs
    } else {
        let prev = after_sends(bufs, routes.drop_last(), out);
        let slot = buffer_slot(routes.last().track);
        prev.update(slot, sent(prev[slot], out, routes.last().volume))
    }
}

/// The buffers after sub track `k` is processed: its output is sent on,
/// and its own buffer is silent again.
pub open spec fn after_track(subs: Seq<Track>, bufs: Seq<Seq<i32>>, k: int) -> Seq<Seq<i32>> {
    after_sends(bufs, subs[k].routes@, track_output(subs[k], bufs[k + 1]))
        .update(k + 1, Seq::new(bufs[k + 1].len(), |j: int| 0i32))
}

/// The buffers after the sub tracks from the newest down to number `k`
/// are processed.
pub open spec fn after_subs(subs: Seq<Track>, bufs: Seq<Seq<i32>>, k: nat) -> Seq<Seq<i32>>
    decreases subs.len() - k,
{
    if k >= subs.len() {
        bufs
    } else {
        after_track(subs, after_subs(subs, bufs, k + 1), k as int)
    }
}

proof fn lemma_sends_keep_lengths(bufs: Seq<Seq<i32>>, routes: Seq<Route>, out: Seq<i32>, k: nat)
    requires
        routes_allowed(routes, k),
        k < bufs.len(),
    ensures
        after_sends(bufs, routes, out).len() == bufs.len(),
        forall|i: int| 0 <= i < bufs.len() ==> (#[trigger] after_sends(bufs, routes, out)[i]).len() == bufs[i].len(),
    decreases routes.len(),
{
    if routes.len() > 0 {
        assert(route_allowed(routes.last().track, k));
        lemma_sends_keep_lengths(bufs, routes.drop_last(), out, k);
    }
}

/// What a track makes of its gathered input: its effects in order, then
/// its volume.
pub open spec fn track_output(t: Track, input: Seq<i32>) -> Seq<i32> {
    let processed = chain_output(t.effects@, input);
    Seq::new(processed.len(), |i: int| scaled(processed[i] as int, t.volume as nat) as i32)
}

/// In a well-formed mixer every send leads from a track to one processed
/// later in the block, so a track's output is complete before any track it
/// sends to gathers it.
pub proof fn lemma_sends_run_downstream(m: &Mixer, k: int, i: int)
    requires
        m.wf(),
        0 <= k < m.spec_subs().len(),
        0 <= i < m.spec_subs()[k].routes@.len(),
    ensures
        m.has_track(m.spec_subs()[k].routes@[i].track),
        process_position(TrackId::Sub(k as usize), m.spec_subs().len())
            < process_position(m.spec_subs()[k].routes@[i].track, m.spec_subs().len()),
{
    assert(route_allowed(m.spec_subs()[k].routes@[i].track, k as nat));
}

} // verus!
