//! The audio command engine: a playback cache keyed by song identifier and
//! the dispatcher that feeds it queued commands in order.
//!
//! The cache never touches the playback device itself.  Applying a command
//! updates the cache's own record of the targeted slot and hands back a
//! [`SinkEffect`], the one call that is now owed to the playback resource;
//! the surrounding (unverified) worker performs that call.  Volumes are
//! fixed-point numbers: ten-thousandths of full volume, so the conventional
//! `0.0 ..= 100.0` level scale becomes `0 ..= 10_000` and a level of fifty
//! points is `5_000`, which normalizes to half of [`FULL_VOLUME`].

use vstd::prelude::*;

verus! {

/// Full volume (the value `1.0`), in ten-thousandths: the volume every
/// freshly started slot begins with.
pub const FULL_VOLUME: u32 = 10_000;

/// Which speaker a sound is routed to.  Declared for the command format;
/// not yet wired into the cache's behaviour.
#[derive(Debug, Copy, Clone, PartialEq, Eq, Structural)]
pub enum Speaker {
    /// Play on both speakers with the same gain.
    Mono,
    /// Spatial audio; gains in ten-thousandths of full gain.
    Stereo { left: u32, right: u32 },
}

impl Default for Speaker {
    fn default() -> (r: Self)
        ensures
            r == Speaker::Mono,
    {
        Speaker::Mono
    }
}

/// What a command asks the engine to do with a song.
#[derive(Debug, Clone)]
pub enum AudioAction {
    /// Begin playback of a song that is not cached yet; a second `Start`
    /// for the same identifier is deliberately a no-op.  `song_data` is the
    /// encoded audio, `do_loop` asks for looped playback.
    Start { song_data: Vec<u8>, do_loop: bool },
    /// Set the song's volume; the level is in hundredths of a volume
    /// point on the `0 ..= 100` scale (`5_000` is level fifty, i.e. half
    /// volume).  Out-of-range levels are accepted as they are.
    AdjustVolume(u32),
    /// Suspend the song.
    Pause,
    /// Resume the song if it was paused.
    Play,
    /// Fade the song out over the given number of milliseconds.
    /// Accepted but not acted on yet.
    FadeOut(u32),
    /// Play the song to its end, with an optional fade-out in milliseconds.
    /// Accepted but not acted on yet.
    PlayUntilEnd { fade_out: Option<u32> },
}

/// One command for the engine: which song, which speaker, and what to do.
#[derive(Debug, Clone)]
pub struct AudioMsg {
    /// The song identifier, usually a file name such as `"hiteffect1.ogg"`.
    pub song: String,
    /// Where to route the sound (not yet acted on).
    pub speaker: Speaker,
    /// What to do with the song.
    pub action: AudioAction,
}

/// Error marker: the targeted song has no slot, so the command needs a
/// prior `Start` with the song's data.
#[derive(Debug, Copy, Clone)]
pub struct AudioDataNotLoaded;

/// The call owed to the actual playback resource after a command was
/// applied to the cache.
#[derive(Debug, Clone)]
pub enum SinkEffect {
    /// Build a sink for the song: decode `song_data`, looped if `do_loop`.
    Create { song_data: Vec<u8>, do_loop: bool },
    /// Push this volume (ten-thousandths of full volume) to the sink.
    SetVolume { volume: u32 },
    /// Pause the sink.
    Pause,
    /// Resume the sink.
    Play,
}

/// The cache's record of one live song: its last-applied volume
/// (ten-thousandths of full volume) and whether it is currently playing.
#[derive(Debug, Copy, Clone, PartialEq, Eq, Structural)]
pub struct AudioSlot {
    pub volume: u32,
    pub playing: bool,
}

/// The mapping a cache holds after one command: `Start` fills a vacant
/// slot (at full volume, playing); on an occupied slot `AdjustVolume`,
/// `Pause` and `Play` update that slot alone and everything else changes
/// nothing.
pub open spec fn step_cache(m: Map<Seq<char>, AudioSlot>, msg: AudioMsg) -> Map<
    Seq<char>,
    AudioSlot,
> {
    match msg.action {
        AudioAction::Start { .. } => if m.contains_key(msg.song@) {
            m
        } else {
            m.insert(msg.song@, AudioSlot { volume: FULL_VOLUME, playing: true })
        },
        AudioAction::AdjustVolume(level) => if m.contains_key(msg.song@) {
            m.insert(msg.song@, AudioSlot { volume: level, playing: m[msg.song@].playing })
        } else {
            m
        },
        AudioAction::Pause => if m.contains_key(msg.song@) {
            m.insert(msg.song@, AudioSlot { volume: m[msg.song@].volume, playing: false })
        } else {
            m
        },
        AudioAction::Play => if m.contains_key(msg.song@) {
            m.insert(msg.song@, AudioSlot { volume: m[msg.song@].volume, playing: true })
        } else {
            m
        },
        AudioAction::FadeOut(_) => m,
        AudioAction::PlayUntilEnd { .. } => m,
    }
}

/// What one command returns: the effect owed to the playback resource
/// (`None` when the command was absorbed), or `AudioDataNotLoaded` exactly
/// when a non-`Start` command targets a vacant slot.  A redundant
/// `AdjustVolume` (the slot already holds that volume) owes no call.
pub open spec fn step_result(m: Map<Seq<char>, AudioSlot>, msg: AudioMsg) -> Result<
    Option<SinkEffect>,
    AudioDataNotLoaded,
> {
    match msg.action {
        AudioAction::Start { song_data, do_loop } => if m.contains_key(msg.song@) {
            Ok(None)
        } else {
            Ok(Some(SinkEffect::Create { song_data, do_loop }))
        },
        AudioAction::AdjustVolume(level) => if m.contains_key(msg.song@) {
            if m[msg.song@].volume == level {
                Ok(None)
            } else {
                Ok(Some(SinkEffect::SetVolume { volume: level }))
            }
        } else {
            Err(AudioDataNotLoaded)
        },
        AudioAction::Pause => if m.contains_key(msg.song@) {
            Ok(Some(SinkEffect::Pause))
        } else {
            Err(AudioDataNotLoaded)
        },
        AudioAction::Play => if m.contains_key(msg.song@) {
            Ok(Some(SinkEffect::Play))
        } else {
            Err(AudioDataNotLoaded)
        },
        AudioAction::FadeOut(_) => if m.contains_key(msg.song@) {
            Ok(None)
        } else {
            Err(AudioDataNotLoaded)
        },
        AudioAction::PlayUntilEnd { .. } => if m.contains_key(msg.song@) {
            Ok(None)
        } else {
            Err(AudioDataNotLoaded)
        },
    }
}

/// The playback cache: at most one slot per song identifier.
pub struct AudioCache {
    keys: Vec<String>,
    slots: Vec<AudioSlot>,
}

impl View for AudioCache {
    type V = Map<Seq<char>, AudioSlot>;

    closed spec fn view(&self) -> Map<Seq<char>, AudioSlot> {
        Map::new(
            |k: Seq<char>|
                exists|i: int| 0 <= i < self.keys@.len() && self.keys@[i]@ == k,
            |k: Seq<char>|
                self.slots@[choose|i: int|
                    0 <= i < self.keys@.len() && self.keys@[i]@ == k],
        )
    }
}

impl AudioCache {
    /// Well-formed: one slot per key, and no song identifier occurs twice.
    pub closed spec fn wf(&self) -> bool {
        &&& self.keys@.len() == self.slots@.len()
        &&& forall|i: int, j: int|
            0 <= i < j < self.keys@.len() ==> self.keys@[i]@ != self.keys@[j]@
    }

    proof fn lemma_view_at(&self, i: int)
        requires
            self.wf(),
            0 <= i < self.keys@.len(),
        ensures
            self@.contains_key(self.keys@[i]@),
            self@[self.keys@[i]@] == self.slots@[i],
    {
        let k = self.keys@[i]@;
        assert(exists|j: int| 0 <= j < self.keys@.len() && self.keys@[j]@ == k);
        let j = choose|j: int| 0 <= j < self.keys@.len() && self.keys@[j]@ == k;
        if j < i {
            assert(self.keys@[j]@ != self.keys@[i]@);
        } else if i < j {
            assert(self.keys@[i]@ != self.keys@[j]@);
        }
    }

    /// Replacing the slot at one index rewrites exactly that key's entry.
    proof fn lemma_view_update(pre: AudioCache, post: AudioCache, i: int, v: AudioSlot)
        requires
            pre.wf(),
            0 <= i < pre.slots@.len(),
            post.keys@ == pre.keys@,
            post.slots@ == pre.slots@.update(i, v),
        ensures
            post.wf(),
            post@ == pre@.insert(pre.keys@[i]@, v),
    {
        let k = pre.keys@[i]@;
        assert(post.wf());
        assert forall|k2: Seq<char>| #[trigger] post@.contains_key(k2) implies
            pre@.insert(k, v).contains_key(k2) && post@[k2] == pre@.insert(k, v)[k2] by {
            let j = choose|j: int| 0 <= j < post.keys@.len() && post.keys@[j]@ == k2;
            post.lemma_view_at(j);
            pre.lemma_view_at(j);
            if j == i {
                assert(k2 == k);
            } else {
                if j < i {
                    assert(pre.keys@[j]@ != pre.keys@[i]@);
                } else {
                    assert(pre.keys@[i]@ != pre.keys@[j]@);
                }
            }
        }
        assert forall|k2: Seq<char>| #[trigger] pre@.insert(k, v).contains_key(k2) implies
            post@.contains_key(k2) by {
            if k2 == k {
                post.lemma_view_at(i);
            } else {
                let j = choose|j: int| 0 <= j < pre.keys@.len() && pre.keys@[j]@ == k2;
                post.lemma_view_at(j);
            }
        }
        assert(post@ =~= pre@.insert(k, v));
    }

    /// Pushing a fresh key appends exactly one entry for it.
    proof fn lemma_view_push(pre: AudioCache, post: AudioCache, song: String, v: AudioSlot)
        requires
            pre.wf(),
            !pre@.contains_key(song@),
            post.keys@ == pre.keys@.push(song),
            post.slots@ == pre.slots@.push(v),
        ensures
            post.wf(),
            post@ == pre@.insert(song@, v),
    {
        let n = pre.keys@.len() as int;
        assert forall|i: int, j: int| #![auto]
            0 <= i < j < post.keys@.len() implies post.keys@[i]@ != post.keys@[j]@ by {
            if j < n {
                assert(pre.keys@[i]@ != pre.keys@[j]@);
            } else {
                assert(post.keys@[j]@ == song@);
                if pre.keys@[i]@ == song@ {
                    pre.lemma_view_at(i);
                }
            }
        }
        assert(post.wf());
        assert forall|k2: Seq<char>| #[trigger] post@.contains_key(k2) implies
            pre@.insert(song@, v).contains_key(k2) && post@[k2] == pre@.insert(song@, v)[k2] by {
            let j = choose|j: int| 0 <= j < post.keys@.len() && post.keys@[j]@ == k2;
            post.lemma_view_at(j);
            if j == n {
                assert(k2 == song@);
            } else {
                assert(post.keys@[j]@ == pre.keys@[j]@);
                pre.lemma_view_at(j);
                assert(k2 != song@);
            }
        }
        assert forall|k2: Seq<char>| #[trigger] pre@.insert(song@, v).contains_key(k2) implies
            post@.contains_key(k2) by {
            if k2 == song@ {
                post.lemma_view_at(n);
            } else {
                let j = choose|j: int| 0 <= j < pre.keys@.len() && pre.keys@[j]@ == k2;
                assert(post.keys@[j]@ == pre.keys@[j]@);
                post.lemma_view_at(j);
            }
        }
        assert(post@ =~= pre@.insert(song@, v));
    }

    /// An empty cache: no slot for any song.
    pub fn new() -> (r: AudioCache)
        ensures
            r.wf(),
            r@ == Map::<Seq<char>, AudioSlot>::empty(),
    {
        let r = AudioCache { keys: Vec::new(), slots: Vec::new() };
        proof {
            assert(r@ =~= Map::<Seq<char>, AudioSlot>::empty());
        }
        r
    }

    /// The index of the song's slot, if it has one.
    fn find_index(&self, song: &String) -> (r: Option<usize>)
        requires
            self.wf(),
        ensures
            match r {
                Some(i) => {
                    &&& i < self.keys@.len()
                    &&& self.keys@[i as int]@ == song@
                    &&& self@.contains_key(song@)
                    &&& self@[song@] == self.slots@[i as int]
                },
                None => !self@.contains_key(song@),
            },
    {
        let n = self.keys.len();
        let mut i: usize = 0;
        while i < n
            invariant
                n == self.keys@.len(),
                i <= n,
                self.wf(),
                forall|j: int| 0 <= j < i ==> self.keys@[j]@ != song@,
            decreases n - i,
        {
            if self.keys[i].eq(song) {
                proof {
                    self.lemma_view_at(i as int);
                }
                return Some(i);
            }
            i += 1;
        }
        None
    }

    /// Whether the song currently has a slot.
    pub fn contains_song(&self, song: &String) -> (r: bool)
        requires
            self.wf(),
        ensures
            r == self@.contains_key(song@),
    {
        self.find_index(song).is_some()
    }

    /// The song's last-applied volume (ten-thousandths of full volume), if
    /// it has a slot.
    pub fn volume_of(&self, song: &String) -> (r: Option<u32>)
        requires
            self.wf(),
        ensures
            r == if self@.contains_key(song@) {
                Some(self@[song@].volume)
            } else {
                None::<u32>
            },
    {
        match self.find_index(song) {
            Some(i) => Some(self.slots[i].volume),
            None => None,
        }
    }

    /// Whether the song's slot is playing (`Some(false)`: paused), if it
    /// has one.
    pub fn is_playing(&self, song: &String) -> (r: Option<bool>)
        requires
            self.wf(),
        ensures
            r == if self@.contains_key(song@) {
                Some(self@[song@].playing)
            } else {
                None::<bool>
            },
    {
        match self.find_index(song) {
            Some(i) => Some(self.slots[i].playing),
            None => None,
        }
    }

    /// How many slots the cache holds.
    pub fn slot_count(&self) -> (r: usize)
        requires
            self.wf(),
        ensures
            self@.dom().finite(),
            r == self@.dom().len(),
    {
        proof {
            self.lemma_dom_len();
        }
        self.keys.len()
    }

    proof fn lemma_dom_len(&self)
        requires
            self.wf(),
        ensures
            self@.dom().finite(),
            self@.dom().len() == self.keys@.len(),
    {
        let views = self.keys@.map_values(|s: String| s@);
        assert(views.no_duplicates());
        views.unique_seq_to_set();
        assert forall|k: Seq<char>| #[trigger] self@.dom().contains(k) implies
            views.to_set().contains(k) by {
            let i = choose|i: int| 0 <= i < self.keys@.len() && self.keys@[i]@ == k;
            assert(views[i] == k);
        }
        assert forall|k: Seq<char>| #[trigger] views.to_set().contains(k) implies
            self@.dom().contains(k) by {
            let i = choose|i: int| 0 <= i < views.len() && views[i] == k;
            assert(self.keys@[i]@ == k);
        }
        assert(self@.dom() =~= views.to_set());
    }

    /// Apply one command: the cache becomes `step_cache` of its old
    /// mapping, and the call owed to the playback resource (or the
    /// missing-slot error) is exactly `step_result`.
    pub fn upsert(&mut self, msg: AudioMsg) -> (r: Result<Option<SinkEffect>, AudioDataNotLoaded>)
        requires
            old(self).wf(),
        ensures
            final(self).wf(),
            final(self)@ == step_cache(old(self)@, msg),
            r == step_result(old(self)@, msg),
    {
        let ghost pre = *self;
        let AudioMsg { song, speaker: _, action } = msg;
        match self.find_index(&song) {
            Some(i) => {
                match action {
                    AudioAction::Start { .. } => Ok(None),
                    AudioAction::AdjustVolume(level) => {
                        if self.slots[i].volume != level {
                            let playing = self.slots[i].playing;
                            self.slots[i] = AudioSlot { volume: level, playing };
                            proof {
                                AudioCache::lemma_view_update(
                                    pre,
                                    *self,
                                    i as int,
                                    AudioSlot { volume: level, playing },
                                );
                            }
                            Ok(Some(SinkEffect::SetVolume { volume: level }))
                        } else {
                            Ok(None)
                        }
                    },
                    AudioAction::Pause => {
                        let volume = self.slots[i].volume;
                        self.slots[i] = AudioSlot { volume, playing: false };
                        proof {
                            AudioCache::lemma_view_update(
                                pre,
                                *self,
                                i as int,
                                AudioSlot { volume, playing: false },
                            );
                        }
                        Ok(Some(SinkEffect::Pause))
                    },
                    AudioAction::Play => {
                        let volume = self.slots[i].volume;
                        self.slots[i] = AudioSlot { volume, playing: true };
                        proof {
                            AudioCache::lemma_view_update(
                                pre,
                                *self,
                                i as int,
                                AudioSlot { volume, playing: true },
                            );
                        }
                        Ok(Some(SinkEffect::Play))
                    },
                    AudioAction::FadeOut(_) => Ok(None),
                    AudioAction::PlayUntilEnd { .. } => Ok(None),
                }
            },
            None => {
                match action {
                    AudioAction::Start { song_data, do_loop } => {
                        let ghost gsong = song;
                        self.keys.push(song);
                        self.slots.push(AudioSlot { volume: FULL_VOLUME, playing: true });
                        proof {
                            AudioCache::lemma_view_push(
                                pre,
                                *self,
                                gsong,
                                AudioSlot { volume: FULL_VOLUME, playing: true },
                            );
                        }
                        Ok(Some(SinkEffect::Create { song_data, do_loop }))
                    },
                    _ => Err(AudioDataNotLoaded),
                }
            },
        }
    }
}

/// The mapping after a whole queue of commands, applied oldest first.
pub open spec fn run_cache(m: Map<Seq<char>, AudioSlot>, msgs: Seq<AudioMsg>) -> Map<
    Seq<char>,
    AudioSlot,
>
    decreases msgs.len(),
{
    if msgs.len() == 0 {
        m
    } else {
        run_cache(step_cache(m, msgs[0]), msgs.drop_first())
    }
}

/// The calls owed to the playback resource by a whole queue of commands,
/// in the order they become due; absorbed commands and missing-slot
/// failures owe none.
pub open spec fn run_effects(m: Map<Seq<char>, AudioSlot>, msgs: Seq<AudioMsg>) -> Seq<SinkEffect>
    decreases msgs.len(),
{
    if msgs.len() == 0 {
        Seq::empty()
    } else {
        let rest = run_effects(step_cache(m, msgs[0]), msgs.drop_first());
        match step_result(m, msgs[0]) {
            Ok(Some(e)) => seq![e] + rest,
            _ => rest,
        }
    }
}

/// Error returned by `send_msg` once the engine no longer accepts
/// commands; it hands the rejected command back.
#[derive(Debug, Clone)]
pub struct ChannelClosedError(pub AudioMsg);

/// The command dispatcher's state: the commands accepted and not yet
/// applied (oldest first), the playback cache they will be applied to, and
/// whether the channel still accepts commands.
///
/// `send_msg` is what producers see; `step` is one iteration of the
/// worker; `shutdown` is the teardown: it stops accepting commands,
/// applies everything still pending, and hands back the calls owed to the
/// playback resource, in order.
pub struct AudioContext {
    queue: Vec<AudioMsg>,
    cache: AudioCache,
    accepting: bool,
}

impl AudioContext {
    /// Commands accepted and not yet applied, oldest first.
    pub closed spec fn pending(&self) -> Seq<AudioMsg> {
        self.queue@
    }

    /// The cache's current mapping.
    pub closed spec fn cache_model(&self) -> Map<Seq<char>, AudioSlot> {
        self.cache@
    }

    /// Whether the channel still accepts commands.
    pub closed spec fn is_open(&self) -> bool {
        self.accepting
    }

    /// Well-formed: the cache is.
    pub closed spec fn wf(&self) -> bool {
        self.cache.wf()
    }

    /// A fresh engine: open, nothing pending, no slots.
    pub fn new() -> (r: AudioContext)
        ensures
            r.wf(),
            r.is_open(),
            r.pending() == Seq::<AudioMsg>::empty(),
            r.cache_model() == Map::<Seq<char>, AudioSlot>::empty(),
    {
        AudioContext { queue: Vec::new(), cache: AudioCache::new(), accepting: true }
    }

    /// Enqueue one command.  While the engine is open this always
    /// succeeds and appends the command; once it is closed the command
    /// comes back in `ChannelClosedError` and nothing changes.
    pub fn send_msg(&mut self, msg: AudioMsg) -> (r: Result<(), ChannelClosedError>)
        requires
            old(self).wf(),
        ensures
            final(self).wf(),
            final(self).cache_model() == old(self).cache_model(),
            final(self).is_open() == old(self).is_open(),
            old(self).is_open() ==> r is Ok && final(self).pending() == old(self).pending().push(
                msg,
            ),
            !old(self).is_open() ==> r == Err::<(), ChannelClosedError>(ChannelClosedError(msg))
                && final(self).pending() == old(self).pending(),
    {
        if self.accepting {
            self.queue.push(msg);
            Ok(())
        } else {
            Err(ChannelClosedError(msg))
        }
    }

    /// One iteration of the worker: apply the oldest pending command to
    /// the cache and hand back its outcome, or `None` when nothing is
    /// pending.  A missing-slot failure is handed back too; the worker
    /// only logs it and goes on.
    pub fn step(&mut self) -> (r: Option<Result<Option<SinkEffect>, AudioDataNotLoaded>>)
        requires
            old(self).wf(),
        ensures
            final(self).wf(),
            final(self).is_open() == old(self).is_open(),
            old(self).pending().len() == 0 ==> {
                &&& r is None
                &&& final(self).pending() == old(self).pending()
                &&& final(self).cache_model() == old(self).cache_model()
            },
            old(self).pending().len() > 0 ==> {
                &&& r == Some(step_result(old(self).cache_model(), old(self).pending()[0]))
                &&& final(self).pending() == old(self).pending().drop_first()
                &&& final(self).cache_model() == step_cache(
                    old(self).cache_model(),
                    old(self).pending()[0],
                )
            },
    {
        if self.queue.len() == 0 {
            None
        } else {
            let msg = self.queue.remove(0);
            proof {
                assert(self.queue@ =~= old(self).queue@.drop_first());
            }
            Some(self.cache.upsert(msg))
        }
    }

    /// Teardown: stop accepting commands, then drain the queue, applying
    /// every pending command in order.  Returns the calls owed to the
    /// playback resource by the drained commands, in order.
    pub fn shutdown(&mut self) -> (effects: Vec<SinkEffect>)
        requires
            old(self).wf(),
        ensures
            final(self).wf(),
            !final(self).is_open(),
            final(self).pending().len() == 0,
            final(self).cache_model() == run_cache(old(self).cache_model(), old(self).pending()),
            effects@ == run_effects(old(self).cache_model(), old(self).pending()),
    {
        let ghost orig_cache = self.cache@;
        let ghost orig_queue = self.queue@;
        self.accepting = false;
        let mut effects: Vec<SinkEffect> = Vec::new();
        while self.queue.len() > 0
            invariant
                self.wf(),
                !self.accepting,
                run_cache(orig_cache, orig_queue) == run_cache(self.cache@, self.queue@),
                run_effects(orig_cache, orig_queue) == effects@ + run_effects(
                    self.cache@,
                    self.queue@,
                ),
            decreases self.queue@.len(),
        {
            let ghost pre_cache = self.cache@;
            let ghost pre_queue = self.queue@;
            let ghost pre_effects = effects@;
            let msg = self.queue.remove(0);
            proof {
                assert(self.queue@ =~= pre_queue.drop_first());
            }
            let r = self.cache.upsert(msg);
            if let Ok(Some(e)) = r {
                effects.push(e);
            }
            proof {
                assert(run_cache(pre_cache, pre_queue) == run_cache(self.cache@, self.queue@));
                assert(run_effects(pre_cache, pre_queue) == match step_result(
                    pre_cache,
                    pre_queue[0],
                ) {
                    Ok(Some(e)) => seq![e] + run_effects(self.cache@, self.queue@),
                    _ => run_effects(self.cache@, self.queue@),
                });
                assert(pre_effects + run_effects(pre_cache, pre_queue) =~= effects@ + run_effects(
                    self.cache@,
                    self.queue@,
                ));
            }
        }
        proof {
            assert(run_cache(self.cache@, self.queue@) == self.cache@);
            assert(effects@ + run_effects(self.cache@, self.queue@) =~= effects@);
        }
        effects
    }

    /// How many commands are pending.
    pub fn pending_len(&self) -> (r: usize)
        ensures
            r == self.pending().len(),
    {
        self.queue.len()
    }

    /// Whether the engine has been shut down.
    pub fn is_closed(&self) -> (r: bool)
        ensures
            r == !self.is_open(),
    {
        !self.accepting
    }

    /// Whether the song currently has a slot.
    pub fn has_slot(&self, song: &String) -> (r: bool)
        requires
            self.wf(),
        ensures
            r == self.cache_model().contains_key(song@),
    {
        self.cache.contains_song(song)
    }

    /// The song's last-applied volume, if it has a slot.
    pub fn volume_of(&self, song: &String) -> (r: Option<u32>)
        requires
            self.wf(),
        ensures
            r == if self.cache_model().contains_key(song@) {
                Some(self.cache_model()[song@].volume)
            } else {
                None::<u32>
            },
    {
        self.cache.volume_of(song)
    }

    /// Whether the song's slot is playing, if it has one.
    pub fn is_playing(&self, song: &String) -> (r: Option<bool>)
        requires
            self.wf(),
        ensures
            r == if self.cache_model().contains_key(song@) {
                Some(self.cache_model()[song@].playing)
            } else {
                None::<bool>
            },
    {
        self.cache.is_playing(song)
    }

    /// How many slots the cache holds.
    pub fn slot_count(&self) -> (r: usize)
        requires
            self.wf(),
        ensures
            self.cache_model().dom().finite(),
            r == self.cache_model().dom().len(),
    {
        self.cache.slot_count()
    }
}

/// Law: starting a song is idempotent.  After any `Start` the song has a
/// slot, so a second identical `Start` changes no slot and owes the
/// playback resource nothing.
pub proof fn lemma_start_idempotent(m: Map<Seq<char>, AudioSlot>, msg: AudioMsg)
    requires
        msg.action is Start,
    ensures
        step_cache(step_cache(m, msg), msg) == step_cache(m, msg),
        step_result(step_cache(m, msg), msg) == Ok::<Option<SinkEffect>, AudioDataNotLoaded>(None),
{
    let m1 = step_cache(m, msg);
    assert(m1.contains_key(msg.song@));
}

/// Law: `Pause`, `Play` and `AdjustVolume` for a song with no slot fail
/// with the missing-slot error and create no slot.
pub proof fn lemma_missing_slot_guard(m: Map<Seq<char>, AudioSlot>, msg: AudioMsg)
    requires
        !m.contains_key(msg.song@),
        msg.action is Pause || msg.action is Play || msg.action is AdjustVolume,
    ensures
        step_result(m, msg) == Err::<Option<SinkEffect>, AudioDataNotLoaded>(AudioDataNotLoaded),
        step_cache(m, msg) == m,
{
}

/// Law: adjusting an active slot to a volume it already holds owes the
/// playback resource nothing; in particular, of two equal adjustments in
/// a row only the first can owe a volume call.
pub proof fn lemma_adjust_volume_no_redundant_call(m: Map<Seq<char>, AudioSlot>, msg: AudioMsg)
    requires
        msg.action is AdjustVolume,
        m.contains_key(msg.song@),
    ensures
        step_cache(step_cache(m, msg), msg) == step_cache(m, msg),
        step_result(step_cache(m, msg), msg) == Ok::<Option<SinkEffect>, AudioDataNotLoaded>(None),
{
    let m1 = step_cache(m, msg);
    assert(m1.contains_key(msg.song@));
    assert(step_cache(m1, msg) =~= m1);
}

/// Law: a command never touches another song's slot.
pub proof fn lemma_independent_keys(m: Map<Seq<char>, AudioSlot>, msg: AudioMsg, k: Seq<char>)
    requires
        k != msg.song@,
    ensures
        step_cache(m, msg).contains_key(k) == m.contains_key(k),
        m.contains_key(k) ==> step_cache(m, msg)[k] == m[k],
{
}

/// Law: a whole run of commands, none of which names a song, leaves that
/// song's slot exactly as it was, however the commands interleave.
pub proof fn lemma_run_independent_keys(
    m: Map<Seq<char>, AudioSlot>,
    msgs: Seq<AudioMsg>,
    k: Seq<char>,
)
    requires
        forall|i: int| 0 <= i < msgs.len() ==> (#[trigger] msgs[i]).song@ != k,
    ensures
        run_cache(m, msgs).contains_key(k) == m.contains_key(k),
        m.contains_key(k) ==> run_cache(m, msgs)[k] == m[k],
    decreases msgs.len(),
{
    if msgs.len() > 0 {
        lemma_independent_keys(m, msgs[0], k);
        lemma_run_independent_keys(step_cache(m, msgs[0]), msgs.drop_first(), k);
    }
}

/// Law: commands are applied strictly in queue order, so running one
/// batch and then another is running their concatenation.
pub proof fn lemma_run_cache_concat(
    m: Map<Seq<char>, AudioSlot>,
    q1: Seq<AudioMsg>,
    q2: Seq<AudioMsg>,
)
    ensures
        run_cache(run_cache(m, q1), q2) == run_cache(m, q1 + q2),
    decreases q1.len(),
{
    if q1.len() == 0 {
        assert(q1 + q2 =~= q2);
    } else {
        assert((q1 + q2)[0] == q1[0]);
        assert((q1 + q2).drop_first() =~= q1.drop_first() + q2);
        lemma_run_cache_concat(step_cache(m, q1[0]), q1.drop_first(), q2);
    }
}

/// Law: the calls owed to the playback resource keep queue order too: a
/// concatenated queue owes the first batch's calls and then the calls the
/// second batch owes from where the first left the cache.
pub proof fn lemma_run_effects_concat(
    m: Map<Seq<char>, AudioSlot>,
    q1: Seq<AudioMsg>,
    q2: Seq<AudioMsg>,
)
    ensures
        run_effects(m, q1 + q2) == run_effects(m, q1) + run_effects(run_cache(m, q1), q2),
    decreases q1.len(),
{
    if q1.len() == 0 {
        assert(q1 + q2 =~= q2);
        assert(run_effects(m, q1) + run_effects(run_cache(m, q1), q2) =~= run_effects(m, q2));
    } else {
        assert((q1 + q2)[0] == q1[0]);
        assert((q1 + q2).drop_first() =~= q1.drop_first() + q2);
        let m1 = step_cache(m, q1[0]);
        lemma_run_effects_concat(m1, q1.drop_first(), q2);
        match step_result(m, q1[0]) {
            Ok(Some(e)) => {
                assert(seq![e] + (run_effects(m1, q1.drop_first()) + run_effects(
                    run_cache(m1, q1.drop_first()),
                    q2,
                )) =~= (seq![e] + run_effects(m1, q1.drop_first())) + run_effects(
                    run_cache(m1, q1.drop_first()),
                    q2,
                ));
            },
            _ => {},
        }
    }
}

} // verus!
