//! Media: camera previews bound to video widgets, and MIDI, which the system
//! does not have.
use crate::camera::frame::{FrameShared, I420Frame};
use vstd::prelude::*;

verus! {

/// A MIDI port.
#[derive(Clone, Copy, PartialEq, Eq, Structural, Debug)]
pub struct MidiPortId(pub u64);

/// A MIDI message.
#[derive(Clone, Copy, Debug)]
pub struct MidiData {
    pub data: [u8; 3],
}

/// MIDI output; there is none.
#[derive(Clone, Copy, PartialEq, Eq, Structural, Debug)]
pub struct OsMidiOutput {}

impl OsMidiOutput {
    /// Sends nothing.
    pub fn send(&self, _port_id: Option<MidiPortId>, _data: MidiData) {
    }
}

/// MIDI input; there is none.
#[derive(Clone, Copy, PartialEq, Eq, Structural, Debug)]
pub struct OsMidiInput {}

impl OsMidiInput {
    /// Nothing is ever received.
    pub fn receive(&mut self) -> (r: Option<(MidiPortId, MidiData)>)
        ensures
            r is None,
            *final(self) == *old(self),
    {
        None
    }
}

/// A video widget bound to the camera stream.
#[derive(Clone, Copy, PartialEq, Eq, Structural, Debug)]
pub struct OhCameraPlayer {
    pub video_id: u64,
    /// Quarter turns that the preview is shown with.
    pub rotation_steps: i32,
    pub width: u32,
    pub height: u32,
    /// Whether the widget has been told that playback is prepared.
    pub prepared: bool,
    pub playing: bool,
}

/// What the widget is told of a frame.
#[derive(Clone, Copy, PartialEq, Eq, Debug)]
pub struct FrameShown {
    /// Playback is prepared, at this size: once.
    pub prepared: Option<(u32, u32)>,
    /// The textures changed, with these quarter turns.
    pub rotation_steps: i32,
}

impl OhCameraPlayer {
    pub fn new(video_id: u64, rotation_steps: i32, autoplay: bool) -> (r: OhCameraPlayer)
        ensures
            r == (OhCameraPlayer {
                video_id,
                rotation_steps,
                width: 0,
                height: 0,
                prepared: false,
                playing: autoplay,
            }),
    {
        OhCameraPlayer {
            video_id,
            rotation_steps,
            width: 0,
            height: 0,
            prepared: false,
            playing: autoplay,
        }
    }

    /// The frame that the player shows next: the newest one that the camera has
    /// delivered, while the player plays. One without a size is given back at once.
    pub fn take_frame(&self, shared: &mut FrameShared) -> (r: Option<I420Frame>)
        ensures
            if !self.playing {
                r is None && *final(shared) == *old(shared)
            } else {
                let taken = FrameShared { latest: None, ..*old(shared) };
                match old(shared).latest {
                    Some(f) if f.width == 0 || f.height == 0 => r is None && *final(shared) == (
                    FrameShared {
                        spare: if taken.spare is None {
                            Some(f)
                        } else {
                            taken.spare
                        },
                        ..taken
                    }),
                    _ => r == old(shared).latest && *final(shared) == taken,
                }
            },
    {
        if !self.playing {
            return None;
        }
        match shared.take_latest() {
            Some(f) => {
                if f.width == 0 || f.height == 0 {
                    shared.recycle(f);
                    None
                } else {
                    Some(f)
                }
            },
            None => None,
        }
    }

    /// A frame was taken for this player. A frame without a size is not shown.
    pub fn frame(&mut self, width: u32, height: u32) -> (r: Option<FrameShown>)
        ensures
            if width == 0 || height == 0 {
                r is None && *final(self) == *old(self)
            } else {
                &&& r matches Some(shown)
                &&& shown.rotation_steps == old(self).rotation_steps
                &&& shown.prepared == if old(self).prepared {
                    None
                } else {
                    Some((width, height))
                }
                &&& *final(self) == (OhCameraPlayer {
                    width,
                    height,
                    prepared: true,
                    ..*old(self)
                })
            },
    {
        if width == 0 || height == 0 {
            return None;
        }
        self.width = width;
        self.height = height;
        let prepared = if self.prepared {
            None
        } else {
            Some((width, height))
        };
        self.prepared = true;
        Some(FrameShown { prepared, rotation_steps: self.rotation_steps })
    }
}

pub open spec fn player_index(players: Seq<OhCameraPlayer>, video_id: u64, from: int) -> Option<int>
    decreases players.len() - from,
{
    if from < 0 || from >= players.len() {
        None
    } else if players[from].video_id == video_id {
        Some(from)
    } else {
        player_index(players, video_id, from + 1)
    }
}

proof fn player_index_finds(players: Seq<OhCameraPlayer>, video_id: u64, from: int)
    requires
        0 <= from <= players.len(),
    ensures
        match player_index(players, video_id, from) {
            Some(i) => from <= i < players.len() && players[i].video_id == video_id,
            None => forall|i: int|
                from <= i < players.len() ==> #[trigger] players[i].video_id != video_id,
        },
    decreases players.len() - from,
{
    if from < players.len() && players[from].video_id != video_id {
        player_index_finds(players, video_id, from + 1);
    }
}

/// The players by widget, and whether the camera list has been sent.
pub struct CxOpenHarmonyMedia {
    /// Whether something asked for the cameras.
    pub has_camera: bool,
    pub camera_descs_sent: bool,
    pub players: Vec<OhCameraPlayer>,
}

/// The media of a widget's players without one widget.
pub open spec fn players_without(players: Seq<OhCameraPlayer>, video_id: u64) -> Seq<OhCameraPlayer> {
    match player_index(players, video_id, 0) {
        Some(i) => players.remove(i),
        None => players,
    }
}

impl CxOpenHarmonyMedia {
    /// No widget has two players.
    pub open spec fn wf(&self) -> bool {
        forall|i: int, j: int|
            0 <= i < j < self.players@.len() ==> #[trigger] self.players@[i].video_id
                != #[trigger] self.players@[j].video_id
    }

    pub fn new() -> (r: CxOpenHarmonyMedia)
        ensures
            r.wf(),
            !r.has_camera,
            !r.camera_descs_sent,
            r.players@.len() == 0,
    {
        CxOpenHarmonyMedia { has_camera: false, camera_descs_sent: false, players: Vec::new() }
    }

    /// The cameras are asked for: whether they have to be enumerated now.
    pub fn camera(&mut self) -> (r: bool)
        ensures
            r == !old(self).has_camera,
            *final(self) == (CxOpenHarmonyMedia { has_camera: true, ..*old(self) }),
    {
        let first = !self.has_camera;
        self.has_camera = true;
        first
    }

    /// A media signal: whether the camera list goes out, which it does once,
    /// after something asked for the cameras.
    pub fn handle_media_signals(&mut self) -> (r: bool)
        ensures
            r == (old(self).has_camera && !old(self).camera_descs_sent),
            *final(self) == (CxOpenHarmonyMedia {
                camera_descs_sent: old(self).camera_descs_sent || r,
                ..*old(self)
            }),
    {
        if self.has_camera && !self.camera_descs_sent {
            self.camera_descs_sent = true;
            true
        } else {
            false
        }
    }

    /// There is nothing to initialise again.
    pub fn reinitialise_media(&mut self)
        ensures
            *final(self) == *old(self),
    {
    }

    fn find(&self, video_id: u64) -> (r: Option<usize>)
        ensures
            match r {
                Some(i) => i < self.players.len() && player_index(self.players@, video_id, 0)
                    == Some(i as int) && self.players@[i as int].video_id == video_id,
                None => player_index(self.players@, video_id, 0) is None && forall|i: int|
                    0 <= i < self.players@.len() ==> #[trigger] self.players@[i].video_id
                        != video_id,
            },
    {
        proof {
            player_index_finds(self.players@, video_id, 0);
        }
        let mut i: usize = 0;
        while i < self.players.len()
            invariant
                i <= self.players.len(),
                player_index(self.players@, video_id, 0) == player_index(
                    self.players@,
                    video_id,
                    i as int,
                ),
            decreases self.players.len() - i,
        {
            if self.players[i].video_id == video_id {
                return Some(i);
            }
            i = i + 1;
        }
        None
    }

    /// Takes a widget's player away: whether it had one, and whether the stream
    /// stops, because no widget is bound to it any more. To stop it the cameras are
    /// asked for.
    pub fn release_camera_player(&mut self, video_id: u64) -> (r: (bool, bool))
        requires
            old(self).wf(),
        ensures
            final(self).wf(),
            final(self).has_camera == (old(self).has_camera || r.1),
            final(self).camera_descs_sent == old(self).camera_descs_sent,
            final(self).players@ == players_without(old(self).players@, video_id),
            r.0 == (player_index(old(self).players@, video_id, 0) is Some),
            r.1 == (r.0 && final(self).players@.len() == 0),
            player_index(final(self).players@, video_id, 0) is None,
    {
        let had = self.take_player(video_id);
        let stops = had && self.players.len() == 0;
        if stops {
            self.has_camera = true;
        }
        (had, stops)
    }

    fn take_player(&mut self, video_id: u64) -> (r: bool)
        requires
            old(self).wf(),
        ensures
            final(self).wf(),
            final(self).has_camera == old(self).has_camera,
            final(self).camera_descs_sent == old(self).camera_descs_sent,
            final(self).players@ == players_without(old(self).players@, video_id),
            r == (player_index(old(self).players@, video_id, 0) is Some),
            player_index(final(self).players@, video_id, 0) is None,
    {
        match self.find(video_id) {
            Some(i) => {
                let ghost all = self.players@;
                self.players.remove(i);
                proof {
                    let now = self.players@;
                    assert forall|a: int| 0 <= a < now.len() implies #[trigger] now[a].video_id
                        != video_id by {
                        if a < i {
                            assert(now[a] == all[a]);
                            assert(all[a].video_id != all[i as int].video_id);
                        } else {
                            assert(now[a] == all[a + 1]);
                            assert(all[i as int].video_id != all[a + 1].video_id);
                        }
                    }
                    assert forall|a: int, b: int| 0 <= a < b < now.len() implies #[trigger] now[a].video_id
                        != #[trigger] now[b].video_id by {
                        let x = if a < i {
                            a
                        } else {
                            a + 1
                        };
                        let y = if b < i {
                            b
                        } else {
                            b + 1
                        };
                        assert(now[a] == all[x] && now[b] == all[y]);
                        assert(all[x].video_id != all[y].video_id);
                    }
                    player_index_finds(now, video_id, 0);
                }
                true
            },
            None => false,
        }
    }

    /// Binds a widget to the stream.
    pub fn bind_player(&mut self, player: OhCameraPlayer)
        requires
            old(self).wf(),
        ensures
            final(self).wf(),
            final(self).has_camera == old(self).has_camera,
            final(self).camera_descs_sent == old(self).camera_descs_sent,
            final(self).players@ == players_without(old(self).players@, player.video_id).push(
                player,
            ),
    {
        self.take_player(player.video_id);
        let ghost before = self.players@;
        proof {
            player_index_finds(before, player.video_id, 0);
        }
        self.players.push(player);
        assert forall|a: int, b: int|
            0 <= a < b < self.players@.len() implies #[trigger] self.players@[a].video_id
            != #[trigger] self.players@[b].video_id by {
            assert(self.players@[a] == before[a]);
            if b < before.len() {
                assert(self.players@[b] == before[b]);
            }
        }
    }

    /// Lets a widget's player run, or pauses it.
    pub fn set_playing(&mut self, video_id: u64, playing: bool)
        ensures
            final(self).has_camera == old(self).has_camera,
            final(self).camera_descs_sent == old(self).camera_descs_sent,
            final(self).players@ == match player_index(old(self).players@, video_id, 0) {
                Some(i) => old(self).players@.update(
                    i,
                    OhCameraPlayer { playing, ..old(self).players@[i] },
                ),
                None => old(self).players@,
            },
            old(self).wf() ==> final(self).wf(),
    {
        if let Some(i) = self.find(video_id) {
            let mut p = self.players[i];
            p.playing = playing;
            self.players.set(i, p);
        }
    }
}

} // verus!
