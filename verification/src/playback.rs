use vstd::prelude::*;

verus! {

use crate::storage::Track;

/// The bare playback state: whether playback runs, the position of the
/// current track inside the session, and the session itself.
#[derive(Debug)]
pub struct PlaybackState {
    pub is_playing: bool,
    pub current_track: usize,
    pub session: Vec<Track>,
}

impl PlaybackState {
    pub fn new() -> (r: Self)
        ensures
            !r.is_playing,
            r.current_track == 0,
            r.session@ =~= Seq::<Track>::empty(),
    {
        PlaybackState { is_playing: false, current_track: 0, session: Vec::new() }
    }
}

/// One observable playback event.
#[derive(Debug)]
#[allow(inconsistent_fields)]
pub enum PlaybackEvent {
    IsPlayingChanged { playing: bool },
    CurrentTrackChanged { track: Option<Track> },
    Enqueued { track: Track, position: usize },
    Dequeued { track: Track, position: usize },
}

impl Clone for PlaybackEvent {
    fn clone(&self) -> (r: Self)
        ensures
            r == *self,
    {
        match self {
            PlaybackEvent::IsPlayingChanged { playing } => PlaybackEvent::IsPlayingChanged {
                playing: *playing,
            },
            PlaybackEvent::CurrentTrackChanged { track } => PlaybackEvent::CurrentTrackChanged {
                track: match track {
                    Some(t) => Some(t.clone()),
                    None => None,
                },
            },
            PlaybackEvent::Enqueued { track, position } => PlaybackEvent::Enqueued {
                track: track.clone(),
                position: *position,
            },
            PlaybackEvent::Dequeued { track, position } => PlaybackEvent::Dequeued {
                track: track.clone(),
                position: *position,
            },
        }
    }
}

/// One event addressed to one subscriber, waiting to be delivered.
#[derive(Debug)]
pub struct Notification {
    pub listener: u64,
    pub event: PlaybackEvent,
}

/// The notifications that delivering `event` to `listeners` produces,
/// in registration order.
pub open spec fn notes_for(listeners: Seq<u64>, event: PlaybackEvent) -> Seq<Notification> {
    listeners.map_values(|l: u64| Notification { listener: l, event: event })
}

/// Playback state with a typed event bus on top: subscribing hands back a
/// cancellation handle, and every state change appends one notification per
/// subscriber, in registration order, to a pending log that the owner of the
/// state drains and dispatches.
#[derive(Debug)]
pub struct ObservablePlaybackState {
    pub state: PlaybackState,
    pub next_listener: u64,
    pub is_playing_listeners: Vec<u64>,
    pub current_track_listeners: Vec<u64>,
    pub enqueue_listeners: Vec<u64>,
    pub dequeue_listeners: Vec<u64>,
    pub pending: Vec<Notification>,
}

/// The cursor never lies further than one position past the session's end.
pub open spec fn playback_wf(o: ObservablePlaybackState) -> bool {
    o.state.current_track <= o.state.session@.len()
}

/// Where a track enqueued with `offset` lands in the session.
pub open spec fn enqueue_index(o: ObservablePlaybackState, offset: usize) -> int {
    let i = o.state.current_track + offset + 1;
    if i <= o.state.session@.len() {
        i
    } else {
        o.state.session@.len() as int
    }
}

/// Where the current track lands after skipping by `n`: clipped to the
/// session length from above and to zero from below.
pub open spec fn skip_target(o: ObservablePlaybackState, n: i32) -> int {
    let i = o.state.current_track + n;
    let clipped = if i <= o.state.session@.len() {
        i
    } else {
        o.state.session@.len() as int
    };
    if clipped >= 0 {
        clipped
    } else {
        0
    }
}

/// The track under the cursor, if the cursor is inside the session.
pub open spec fn current_track_spec(o: ObservablePlaybackState) -> Option<Track> {
    if o.state.current_track < o.state.session@.len() {
        Some(o.state.session@[o.state.current_track as int])
    } else {
        None
    }
}

impl ObservablePlaybackState {
    pub fn new() -> (r: Self)
        ensures
            playback_wf(r),
            !r.state.is_playing,
            r.state.current_track == 0,
            r.state.session@ =~= Seq::<Track>::empty(),
            r.next_listener == 0,
            r.is_playing_listeners@ =~= Seq::<u64>::empty(),
            r.current_track_listeners@ =~= Seq::<u64>::empty(),
            r.enqueue_listeners@ =~= Seq::<u64>::empty(),
            r.dequeue_listeners@ =~= Seq::<u64>::empty(),
            r.pending@ =~= Seq::<Notification>::empty(),
    {
        ObservablePlaybackState {
            state: PlaybackState::new(),
            next_listener: 0,
            is_playing_listeners: Vec::new(),
            current_track_listeners: Vec::new(),
            enqueue_listeners: Vec::new(),
            dequeue_listeners: Vec::new(),
            pending: Vec::new(),
        }
    }

    /// Subscribes to playback-flag changes; the returned handle cancels the
    /// subscription through `unsubscribe`.
    pub fn on_is_playing_changed(&mut self) -> (handle: u64)
        requires
            old(self).next_listener < u64::MAX,
        ensures
            handle == old(self).next_listener,
            final(self).next_listener == old(self).next_listener + 1,
            final(self).is_playing_listeners@ == old(self).is_playing_listeners@.push(handle),
            final(self).current_track_listeners@ == old(self).current_track_listeners@,
            final(self).enqueue_listeners@ == old(self).enqueue_listeners@,
            final(self).dequeue_listeners@ == old(self).dequeue_listeners@,
            final(self).state == old(self).state,
            final(self).pending@ == old(self).pending@,
    {
        let handle = self.next_listener;
        self.next_listener = self.next_listener + 1;
        self.is_playing_listeners.push(handle);
        handle
    }

    /// Subscribes to changes of the current track.
    pub fn on_current_track_changed(&mut self) -> (handle: u64)
        requires
            old(self).next_listener < u64::MAX,
        ensures
            handle == old(self).next_listener,
            final(self).next_listener == old(self).next_listener + 1,
            final(self).current_track_listeners@ == old(self).current_track_listeners@.push(
                handle,
            ),
            final(self).is_playing_listeners@ == old(self).is_playing_listeners@,
            final(self).enqueue_listeners@ == old(self).enqueue_listeners@,
            final(self).dequeue_listeners@ == old(self).dequeue_listeners@,
            final(self).state == old(self).state,
            final(self).pending@ == old(self).pending@,
    {
        let handle = self.next_listener;
        self.next_listener = self.next_listener + 1;
        self.current_track_listeners.push(handle);
        handle
    }

    /// Subscribes to enqueue events.
    pub fn on_enqueue(&mut self) -> (handle: u64)
        requires
            old(self).next_listener < u64::MAX,
        ensures
            handle == old(self).next_listener,
            final(self).next_listener == old(self).next_listener + 1,
            final(self).enqueue_listeners@ == old(self).enqueue_listeners@.push(handle),
            final(self).is_playing_listeners@ == old(self).is_playing_listeners@,
            final(self).current_track_listeners@ == old(self).current_track_listeners@,
            final(self).dequeue_listeners@ == old(self).dequeue_listeners@,
            final(self).state == old(self).state,
            final(self).pending@ == old(self).pending@,
    {
        let handle = self.next_listener;
        self.next_listener = self.next_listener + 1;
        self.enqueue_listeners.push(handle);
        handle
    }

    /// Subscribes to dequeue events.
    pub fn on_dequeue(&mut self) -> (handle: u64)
        requires
            old(self).next_listener < u64::MAX,
        ensures
            handle == old(self).next_listener,
            final(self).next_listener == old(self).next_listener + 1,
            final(self).dequeue_listeners@ == old(self).dequeue_listeners@.push(handle),
            final(self).is_playing_listeners@ == old(self).is_playing_listeners@,
            final(self).current_track_listeners@ == old(self).current_track_listeners@,
            final(self).enqueue_listeners@ == old(self).enqueue_listeners@,
            final(self).state == old(self).state,
            final(self).pending@ == old(self).pending@,
    {
        let handle = self.next_listener;
        self.next_listener = self.next_listener + 1;
        self.dequeue_listeners.push(handle);
        handle
    }

    /// Appends one notification per subscriber, in registration order.
    fn notify_listeners(pending: &mut Vec<Notification>, listeners: &Vec<u64>, event: PlaybackEvent)
        ensures
            final(pending)@ == old(pending)@ + notes_for(listeners@, event),
    {
        let ghost base = pending@;
        let ghost ev = event;
        let mut i: usize = 0;
        while i < listeners.len()
            invariant
                i <= listeners@.len(),
                ev == event,
                old(pending)@ == base,
                pending@ =~= base + notes_for(listeners@.take(i as int), ev),
            decreases listeners@.len() - i,
        {
            pending.push(Notification { listener: listeners[i], event: event.clone() });
            proof {
                assert(notes_for(listeners@.take(i as int + 1), ev) =~= notes_for(
                    listeners@.take(i as int),
                    ev,
                ).push(Notification { listener: listeners@[i as int], event: ev }));
            }
            i = i + 1;
        }
        proof {
            assert(listeners@.take(listeners@.len() as int) =~= listeners@);
            assert(pending@ =~= base + notes_for(listeners@, ev));
        }
    }

    pub fn is_playing(&self) -> (r: bool)
        ensures
            r == self.state.is_playing,
    {
        self.state.is_playing
    }

    /// Starts playback when it is stopped; once playing, further calls leave
    /// the state untouched. Subscribers to the playback flag are notified of
    /// an actual change only.
    pub fn set_playing(&mut self, playing: bool)
        ensures
            old(self).state.is_playing ==> *final(self) == *old(self),
            !old(self).state.is_playing ==> {
                &&& final(self).state.is_playing == playing
                &&& final(self).state.current_track == old(self).state.current_track
                &&& final(self).state.session@ == old(self).state.session@
                &&& final(self).pending@ == old(self).pending@ + notes_for(
                    old(self).is_playing_listeners@,
                    PlaybackEvent::IsPlayingChanged { playing },
                )
                &&& final(self).is_playing_listeners@ == old(self).is_playing_listeners@
                &&& final(self).current_track_listeners@ == old(self).current_track_listeners@
                &&& final(self).enqueue_listeners@ == old(self).enqueue_listeners@
                &&& final(self).dequeue_listeners@ == old(self).dequeue_listeners@
                &&& final(self).next_listener == old(self).next_listener
            },
    {
        if self.state.is_playing {
            return ;
        }
        self.state.is_playing = playing;
        Self::notify_listeners(
            &mut self.pending,
            &self.is_playing_listeners,
            PlaybackEvent::IsPlayingChanged { playing },
        );
    }

    /// The tracks after the current one, in session order.
    pub fn queue(&self) -> (r: Vec<Track>)
        ensures
            r@ == if self.state.current_track + 1 <= self.state.session@.len() {
                self.state.session@.skip(self.state.current_track + 1)
            } else {
                Seq::<Track>::empty()
            },
    {
        let len = self.state.session.len();
        let start = if self.state.current_track < len {
            self.state.current_track + 1
        } else {
            len
        };
        let mut out: Vec<Track> = Vec::new();
        let mut i: usize = start;
        while i < len
            invariant
                start <= i <= len,
                len == self.state.session@.len(),
                out@ =~= self.state.session@.subrange(start as int, i as int),
            decreases len - i,
        {
            out.push(self.state.session[i].clone());
            proof {
                assert(out@ =~= self.state.session@.subrange(start as int, i as int + 1));
            }
            i = i + 1;
        }
        proof {
            if self.state.current_track + 1 <= self.state.session@.len() {
                assert(out@ =~= self.state.session@.skip(self.state.current_track + 1));
            } else {
                assert(out@ =~= Seq::<Track>::empty());
            }
        }
        out
    }

    /// The track under the cursor, if any.
    pub fn current_track(&self) -> (r: Option<Track>)
        ensures
            r == current_track_spec(*self),
    {
        if self.state.current_track < self.state.session.len() {
            Some(self.state.session[self.state.current_track].clone())
        } else {
            None
        }
    }

    /// The tracks before the current one. The session must not be empty.
    pub fn history(&self) -> (r: Vec<Track>)
        requires
            self.state.session@.len() >= 1,
        ensures
            r@ == self.state.session@.take(
                if self.state.current_track + 1 <= self.state.session@.len() {
                    self.state.current_track as int
                } else {
                    self.state.session@.len() - 1
                },
            ),
    {
        let len = self.state.session.len();
        let stop = if self.state.current_track <= len - 1 {
            self.state.current_track
        } else {
            len - 1
        };
        let mut out: Vec<Track> = Vec::new();
        let mut i: usize = 0;
        while i < stop
            invariant
                i <= stop <= self.state.session@.len(),
                out@ =~= self.state.session@.subrange(0, i as int),
            decreases stop - i,
        {
            out.push(self.state.session[i].clone());
            proof {
                assert(out@ =~= self.state.session@.subrange(0, i as int + 1));
            }
            i = i + 1;
        }
        proof {
            assert(out@ =~= self.state.session@.take(stop as int));
        }
        out
    }

    /// The whole session, in order.
    pub fn session(&self) -> (r: Vec<Track>)
        ensures
            r@ == self.state.session@,
    {
        let len = self.state.session.len();
        let mut out: Vec<Track> = Vec::new();
        let mut i: usize = 0;
        while i < len
            invariant
                i <= len,
                len == self.state.session@.len(),
                out@ =~= self.state.session@.subrange(0, i as int),
            decreases len - i,
        {
            out.push(self.state.session[i].clone());
            proof {
                assert(out@ =~= self.state.session@.subrange(0, i as int + 1));
            }
            i = i + 1;
        }
        proof {
            assert(out@ =~= self.state.session@);
        }
        out
    }

    /// Puts `track` right after the cursor and moves onto it, notifying the
    /// enqueue subscribers and then the current-track subscribers, exactly as
    /// the two steps it is made of do.
    pub fn play_now(&mut self, track: Track)
        requires
            playback_wf(*old(self)),
            old(self).state.session@.len() < usize::MAX,
        ensures
            playback_wf(*final(self)),
            final(self).state.session@ == old(self).state.session@.insert(
                enqueue_index(*old(self), 0),
                track,
            ),
            final(self).state.current_track == old(self).state.current_track + 1,
            final(self).state.is_playing == old(self).state.is_playing,
            final(self).pending@ == old(self).pending@ + notes_for(
                old(self).enqueue_listeners@,
                PlaybackEvent::Enqueued {
                    track,
                    position: enqueue_index(*old(self), 0) as usize,
                },
            ) + notes_for(
                old(self).current_track_listeners@,
                PlaybackEvent::CurrentTrackChanged { track: current_track_spec(*final(self)) },
            ),
            final(self).is_playing_listeners@ == old(self).is_playing_listeners@,
            final(self).current_track_listeners@ == old(self).current_track_listeners@,
            final(self).enqueue_listeners@ == old(self).enqueue_listeners@,
            final(self).dequeue_listeners@ == old(self).dequeue_listeners@,
            final(self).next_listener == old(self).next_listener,
    {
        self.enqueue(track, 0);
        self.skip(1);
    }

    /// Moves the cursor by `n` positions, clipping at the session's ends,
    /// and notifies current-track subscribers of the track now under it.
    pub fn skip(&mut self, n: i32)
        requires
            playback_wf(*old(self)),
        ensures
            playback_wf(*final(self)),
            final(self).state.current_track == skip_target(*old(self), n),
            final(self).state.session@ == old(self).state.session@,
            final(self).state.is_playing == old(self).state.is_playing,
            final(self).pending@ == old(self).pending@ + notes_for(
                old(self).current_track_listeners@,
                PlaybackEvent::CurrentTrackChanged { track: current_track_spec(*final(self)) },
            ),
            final(self).is_playing_listeners@ == old(self).is_playing_listeners@,
            final(self).current_track_listeners@ == old(self).current_track_listeners@,
            final(self).enqueue_listeners@ == old(self).enqueue_listeners@,
            final(self).dequeue_listeners@ == old(self).dequeue_listeners@,
            final(self).next_listener == old(self).next_listener,
    {
        let len = self.state.session.len();
        let cur = self.state.current_track;
        let target: usize = if n >= 0 {
            let step = n as usize;
            if step <= len && cur <= len - step {
                cur + step
            } else {
                len
            }
        } else {
            let back = if n == i32::MIN {
                (i32::MAX as usize) + 1
            } else {
                (-n) as usize
            };
            if back <= cur {
                cur - back
            } else {
                0
            }
        };
        self.state.current_track = target;
        let announced = self.current_track();
        Self::notify_listeners(
            &mut self.pending,
            &self.current_track_listeners,
            PlaybackEvent::CurrentTrackChanged { track: announced },
        );
    }

    /// Inserts `track` `offset` places after the cursor (clipped to the end)
    /// and notifies enqueue subscribers of the landing position.
    pub fn enqueue(&mut self, track: Track, offset: usize)
        requires
            playback_wf(*old(self)),
            old(self).state.current_track + offset + 1 <= usize::MAX,
            old(self).state.session@.len() < usize::MAX,
        ensures
            playback_wf(*final(self)),
            final(self).state.session@ == old(self).state.session@.insert(
                enqueue_index(*old(self), offset),
                track,
            ),
            final(self).state.current_track == old(self).state.current_track,
            final(self).state.is_playing == old(self).state.is_playing,
            final(self).pending@ == old(self).pending@ + notes_for(
                old(self).enqueue_listeners@,
                PlaybackEvent::Enqueued {
                    track,
                    position: enqueue_index(*old(self), offset) as usize,
                },
            ),
            final(self).is_playing_listeners@ == old(self).is_playing_listeners@,
            final(self).current_track_listeners@ == old(self).current_track_listeners@,
            final(self).enqueue_listeners@ == old(self).enqueue_listeners@,
            final(self).dequeue_listeners@ == old(self).dequeue_listeners@,
            final(self).next_listener == old(self).next_listener,
    {
        let len = self.state.session.len();
        let wanted = self.state.current_track + offset + 1;
        let i = if wanted <= len {
            wanted
        } else {
            len
        };
        let announced = track.clone();
        self.state.session.insert(i, track);
        Self::notify_listeners(
            &mut self.pending,
            &self.enqueue_listeners,
            PlaybackEvent::Enqueued { track: announced, position: i },
        );
    }

    /// Removes the track `offset` places after the cursor, when that position
    /// exists, and notifies dequeue subscribers; past the end it is a no-op.
    pub fn dequeue(&mut self, offset: usize)
        requires
            playback_wf(*old(self)),
            old(self).state.current_track + offset + 1 <= usize::MAX,
        ensures
            playback_wf(*final(self)),
            old(self).state.current_track + offset + 1 >= old(self).state.session@.len()
                ==> *final(self) == *old(self),
            old(self).state.current_track + offset + 1 < old(self).state.session@.len() ==> {
                &&& final(self).state.session@ == old(self).state.session@.remove(
                    old(self).state.current_track + offset + 1,
                )
                &&& final(self).state.current_track == old(self).state.current_track
                &&& final(self).state.is_playing == old(self).state.is_playing
                &&& final(self).pending@ == old(self).pending@ + notes_for(
                    old(self).dequeue_listeners@,
                    PlaybackEvent::Dequeued {
                        track: old(self).state.session@[old(self).state.current_track + offset
                            + 1],
                        position: (old(self).state.current_track + offset + 1) as usize,
                    },
                )
                &&& final(self).is_playing_listeners@ == old(self).is_playing_listeners@
                &&& final(self).current_track_listeners@ == old(self).current_track_listeners@
                &&& final(self).enqueue_listeners@ == old(self).enqueue_listeners@
                &&& final(self).dequeue_listeners@ == old(self).dequeue_listeners@
                &&& final(self).next_listener == old(self).next_listener
            },
    {
        let i = self.state.current_track + offset + 1;
        if i >= self.state.session.len() {
            return ;
        }
        let track = self.state.session.remove(i);
        Self::notify_listeners(
            &mut self.pending,
            &self.dequeue_listeners,
            PlaybackEvent::Dequeued { track, position: i },
        );
    }

    /// Cancels a subscription: the handle stops receiving any events.
    pub fn unsubscribe(&mut self, handle: u64)
        ensures
            final(self).is_playing_listeners@ == old(self).is_playing_listeners@.filter(
                |l: u64| l != handle,
            ),
            final(self).current_track_listeners@ == old(self).current_track_listeners@.filter(
                |l: u64| l != handle,
            ),
            final(self).enqueue_listeners@ == old(self).enqueue_listeners@.filter(
                |l: u64| l != handle,
            ),
            final(self).dequeue_listeners@ == old(self).dequeue_listeners@.filter(
                |l: u64| l != handle,
            ),
            final(self).state == old(self).state,
            final(self).pending@ == old(self).pending@,
            final(self).next_listener == old(self).next_listener,
    {
        self.is_playing_listeners = Self::without(&self.is_playing_listeners, handle);
        self.current_track_listeners = Self::without(&self.current_track_listeners, handle);
        self.enqueue_listeners = Self::without(&self.enqueue_listeners, handle);
        self.dequeue_listeners = Self::without(&self.dequeue_listeners, handle);
    }

    fn without(listeners: &Vec<u64>, handle: u64) -> (r: Vec<u64>)
        ensures
            r@ == listeners@.filter(|l: u64| l != handle),
    {
        let mut out: Vec<u64> = Vec::new();
        let mut i: usize = 0;
        proof {
            assert(listeners@.take(0) =~= Seq::<u64>::empty());
            reveal_with_fuel(Seq::filter, 2);
        }
        while i < listeners.len()
            invariant
                i <= listeners@.len(),
                out@ == listeners@.take(i as int).filter(|l: u64| l != handle),
            decreases listeners@.len() - i,
        {
            proof {
                reveal_with_fuel(Seq::filter, 2);
                assert(listeners@.take(i as int + 1).drop_last() =~= listeners@.take(i as int));
                assert(listeners@.take(i as int + 1).last() == listeners@[i as int]);
            }
            if listeners[i] != handle {
                out.push(listeners[i]);
            }
            i = i + 1;
        }
        proof {
            assert(listeners@.take(listeners@.len() as int) =~= listeners@);
        }
        out
    }

    /// Hands the pending notifications over for dispatch and clears the log.
    pub fn take_notifications(&mut self) -> (r: Vec<Notification>)
        ensures
            r@ == old(self).pending@,
            final(self).pending@ =~= Seq::<Notification>::empty(),
            final(self).state == old(self).state,
            final(self).is_playing_listeners@ == old(self).is_playing_listeners@,
            final(self).current_track_listeners@ == old(self).current_track_listeners@,
            final(self).enqueue_listeners@ == old(self).enqueue_listeners@,
            final(self).dequeue_listeners@ == old(self).dequeue_listeners@,
            final(self).next_listener == old(self).next_listener,
    {
        let mut drained: Vec<Notification> = Vec::new();
        std::mem::swap(&mut drained, &mut self.pending);
        drained
    }
}

} // verus!
