//! Playback engine: play queue, history, current item, state and configuration.
//! Every operation records the events it emits in an outbox that the host drains.

use std::collections::VecDeque;
use rand::seq::SliceRandom;
use vstd::prelude::*;
use crate::events::{unix_now, AppEvent, PlaybackEvent, PlayerState, QueueDelta};

verus! {

/// An entry of the play queue.
#[derive(Debug, Clone)]
pub struct QueueItem {
    pub id: i64,
    pub title: String,
    pub artist: String,
    /// `audio` or `video`.
    pub media_type: String,
    pub file_path: String,
    pub duration_ms: Option<i64>,
}

impl QueueItem {
    /// A field-by-field copy.
    pub fn duplicate(&self) -> (r: QueueItem)
        ensures
            r == *self,
    {
        QueueItem {
            id: self.id,
            title: self.title.clone(),
            artist: self.artist.clone(),
            media_type: self.media_type.clone(),
            file_path: self.file_path.clone(),
            duration_ms: self.duration_ms,
        }
    }
}

/// Repetition policy.
#[derive(Debug, Clone, Copy, PartialEq, Eq, Structural)]
pub enum RepeatMode {
    Off,
    One,
    All,
}

/// State of the player.
#[derive(Debug, Clone, Copy, PartialEq, Eq, Structural)]
pub enum PlayerStateEnum {
    Idle,
    Playing,
    Paused,
    Buffering,
    Stopped,
    Error,
}

/// Playback configuration kept by the engine.
#[derive(Debug, Clone, Copy, PartialEq, Eq, Structural)]
pub struct PlayerConfig {
    pub repeat_mode: RepeatMode,
    pub shuffle: bool,
    /// Pause before moving on to the next item, in milliseconds.
    pub auto_next_delay_ms: u64,
}

impl Default for PlayerConfig {
    /// No repetition, no shuffle, two seconds before the next item.
    fn default() -> (r: PlayerConfig)
        ensures
            r.repeat_mode == RepeatMode::Off,
            !r.shuffle,
            r.auto_next_delay_ms == 2000,
    {
        PlayerConfig { repeat_mode: RepeatMode::Off, shuffle: false, auto_next_delay_ms: 2000 }
    }
}

/// What the engine holds, as mathematical values.
pub struct PlaybackModel {
    pub queue: Seq<QueueItem>,
    pub history: Seq<QueueItem>,
    pub current: Option<QueueItem>,
    pub position: i64,
    pub state: PlayerStateEnum,
    pub config: PlayerConfig,
}

/// What the host does after an item has finished.
#[derive(Debug, Clone, Copy, PartialEq, Eq)]
pub enum FinishAction {
    /// Repeat-one: the same item starts again from zero.
    Repeated,
    /// Wait `delay_ms` milliseconds, then call `play_next`.
    AdvanceAfter { delay_ms: u64 },
}

/// The id of an optional item.
pub open spec fn item_id_of(item: Option<QueueItem>) -> Option<i64> {
    match item {
        Some(i) => Some(i.id),
        None => None,
    }
}

/// The duration of an optional item.
pub open spec fn duration_of(item: Option<QueueItem>) -> Option<i64> {
    match item {
        Some(i) => i.duration_ms,
        None => None,
    }
}

/// The characters of an optional string.
pub open spec fn opt_chars(s: Option<String>) -> Option<Seq<char>> {
    match s {
        Some(x) => Some(x@),
        None => None,
    }
}

/// The name a repeat mode is reported under.
pub open spec fn repeat_mode_name(mode: RepeatMode) -> Seq<char> {
    match mode {
        RepeatMode::Off => "none"@,
        RepeatMode::One => "one"@,
        RepeatMode::All => "all"@,
    }
}

/// Gives `repeat_mode_name(mode)`.
pub fn repeat_mode_text(mode: RepeatMode) -> (r: String)
    ensures
        r@ == repeat_mode_name(mode),
{
    match mode {
        RepeatMode::Off => String::from_str("none"),
        RepeatMode::One => String::from_str("one"),
        RepeatMode::All => String::from_str("all"),
    }
}

/// `e` reports the player in state `state` on `item` at `position`, under the
/// configuration `cfg`.
pub open spec fn is_player_state_event(
    e: AppEvent,
    state: Seq<char>,
    item: Option<QueueItem>,
    position: i64,
    cfg: PlayerConfig,
) -> bool {
    &&& e matches AppEvent::PlayerState(p)
    &&& p.state@ == state
    &&& p.item_id == item_id_of(item)
    &&& p.position_ms == position
    &&& p.duration_ms == duration_of(item)
    &&& p.repeat_mode@ == repeat_mode_name(cfg.repeat_mode)
    &&& p.shuffle == cfg.shuffle
}

/// `e` is the playback milestone `kind` on `item`, with the given position and reason.
pub open spec fn is_playback_event(
    e: AppEvent,
    kind: Seq<char>,
    item: Option<QueueItem>,
    position: Option<i64>,
    reason: Option<Seq<char>>,
) -> bool {
    &&& e matches AppEvent::PlaybackEvent(p)
    &&& p.event_type@ == kind
    &&& p.item_id == item_id_of(item)
    &&& p.position_ms == position
    &&& p.duration_ms == duration_of(item)
    &&& opt_chars(p.reason) == reason
}

/// `e` is a queue change with the given reason and item ids.
pub open spec fn is_queue_delta(e: AppEvent, reason: Seq<char>, ids: Seq<i64>) -> bool {
    &&& e matches AppEvent::QueueDelta(d)
    &&& d.reason@ == reason
    &&& d.queue_item_ids@ == ids
}

/// `new` is `old` followed by `n` more events.
pub open spec fn extends_by(old: Seq<AppEvent>, new: Seq<AppEvent>, n: nat) -> bool {
    &&& new.len() == old.len() + n
    &&& new.take(old.len() as int) == old
}

/// Appending one event extends the outbox by one.
pub proof fn lemma_extends_one(old: Seq<AppEvent>, a: AppEvent)
    ensures
        extends_by(old, old.push(a), 1),
        old.push(a).last() == a,
{
    assert(old.push(a).take(old.len() as int) =~= old);
}

/// Appending two events extends the outbox by two.
pub proof fn lemma_extends_two(old: Seq<AppEvent>, a: AppEvent, b: AppEvent)
    ensures
        extends_by(old, old.push(a).push(b), 2),
        old.push(a).push(b)[old.len() as int] == a,
        old.push(a).push(b)[old.len() + 1int] == b,
{
    assert(old.push(a).push(b).take(old.len() as int) =~= old);
}

/// The ids of a sequence of items.
pub open spec fn ids_of(items: Seq<QueueItem>) -> Seq<i64> {
    items.map_values(|i: QueueItem| i.id)
}

/// `play_next` succeeds: the queue has an item, or repeat-all can refill it from history.
pub open spec fn can_play_next(m: PlaybackModel) -> bool {
    m.queue.len() > 0 || (m.config.repeat_mode == RepeatMode::All && m.history.len() > 0)
}

/// The queue `play_next` takes from: the queue, or the history when the queue is
/// empty (repeat-all).
pub open spec fn next_source(m: PlaybackModel) -> Seq<QueueItem> {
    if m.queue.len() > 0 {
        m.queue
    } else {
        m.history
    }
}

/// The engine after `play_next`: the first item leaves the queue, goes to the
/// history and becomes current, at position zero, playing.
pub open spec fn after_play_next(m: PlaybackModel) -> PlaybackModel {
    let q = next_source(m);
    PlaybackModel {
        queue: q.drop_first(),
        history: m.history.push(q[0]),
        current: Some(q[0]),
        position: 0,
        state: PlayerStateEnum::Playing,
        config: m.config,
    }
}

/// The error message of a failed `play_next`.
pub open spec fn play_next_error(m: PlaybackModel) -> Seq<char> {
    if m.config.repeat_mode == RepeatMode::All {
        "La cola está vacía y no hay elementos en el historial"@
    } else {
        "La cola está vacía"@
    }
}

/// `play_previous` succeeds: the history holds at least two items.
pub open spec fn can_play_previous(m: PlaybackModel) -> bool {
    m.history.len() >= 2
}

/// The engine after `play_previous`: the last two history items are removed, the
/// current item goes back to the front of the queue, and the older of the two
/// becomes current, at position zero, playing.
pub open spec fn after_play_previous(m: PlaybackModel) -> PlaybackModel {
    let h = m.history.drop_last();
    PlaybackModel {
        queue: match m.current {
            Some(c) => seq![c] + m.queue,
            None => m.queue,
        },
        history: h.drop_last(),
        current: Some(h.last()),
        position: 0,
        state: PlayerStateEnum::Playing,
        config: m.config,
    }
}

/// The error message of a failed `play_previous`.
pub open spec fn play_previous_error() -> Seq<char> {
    "No hay elementos anteriores en el historial"@
}

/// `m` with another queue.
pub open spec fn with_queue(m: PlaybackModel, q: Seq<QueueItem>) -> PlaybackModel {
    PlaybackModel { queue: q, ..m }
}

/// `m` with another state.
pub open spec fn with_state(m: PlaybackModel, s: PlayerStateEnum) -> PlaybackModel {
    PlaybackModel { state: s, ..m }
}

/// The playback engine.
pub struct Player {
    queue: VecDeque<QueueItem>,
    history: Vec<QueueItem>,
    current_item: Option<QueueItem>,
    current_position: i64,
    state: PlayerStateEnum,
    config: PlayerConfig,
    outbox: Vec<AppEvent>,
}

/// Calls `SliceRandom::shuffle` of `rand` with `rand::thread_rng()`: the same items
/// in an order chosen at random. Nothing is promised of the order.
#[verifier::external_body]
fn shuffled<T>(items: Vec<T>) -> (r: Vec<T>)
    ensures
        r@.to_multiset() == items@.to_multiset(),
{
    let mut v = items;
    v.shuffle(&mut rand::thread_rng());
    v
}

/// A queue change event.
fn queue_delta(reason: &str, ids: Vec<i64>) -> (e: AppEvent)
    ensures
        is_queue_delta(e, reason@, ids@),
{
    AppEvent::QueueDelta(QueueDelta::new(String::from_str(reason), ids))
}

/// A player snapshot event.
fn player_state_event(state: &str, item: &Option<QueueItem>, position: i64, cfg: PlayerConfig) -> (e: AppEvent)
    ensures
        is_player_state_event(e, state@, *item, position, cfg),
{
    AppEvent::PlayerState(
        PlayerState {
            state: String::from_str(state),
            item_id: match item {
                Some(i) => Some(i.id),
                None => None,
            },
            position_ms: position,
            duration_ms: match item {
                Some(i) => i.duration_ms,
                None => None,
            },
            repeat_mode: repeat_mode_text(cfg.repeat_mode),
            shuffle: cfg.shuffle,
        },
    )
}

/// A playback milestone event, stamped with the current time.
fn playback_event(
    kind: &str,
    item: &Option<QueueItem>,
    position: Option<i64>,
    reason: Option<&str>,
) -> (e: AppEvent)
    ensures
        is_playback_event(
            e,
            kind@,
            *item,
            position,
            match reason {
                Some(r) => Some(r@),
                None => None,
            },
        ),
{
    AppEvent::PlaybackEvent(
        PlaybackEvent {
            event_type: String::from_str(kind),
            item_id: match item {
                Some(i) => Some(i.id),
                None => None,
            },
            position_ms: position,
            duration_ms: match item {
                Some(i) => i.duration_ms,
                None => None,
            },
            reason: match reason {
                Some(r) => Some(String::from_str(r)),
                None => None,
            },
            timestamp: unix_now(),
        },
    )
}

/// A copy of an optional item.
fn duplicate_opt(item: &Option<QueueItem>) -> (r: Option<QueueItem>)
    ensures
        r == *item,
{
    match item {
        Some(i) => Some(i.duplicate()),
        None => None,
    }
}

impl Player {
    /// The engine's content.
    pub closed spec fn model(&self) -> PlaybackModel {
        PlaybackModel {
            queue: self.queue@,
            history: self.history@,
            current: self.current_item,
            position: self.current_position,
            state: self.state,
            config: self.config,
        }
    }

    /// The events emitted and not yet taken.
    pub closed spec fn events(&self) -> Seq<AppEvent> {
        self.outbox@
    }

    /// An idle engine with nothing queued and the default configuration.
    pub fn new() -> (p: Player)
        ensures
            p.model().queue.len() == 0,
            p.model().history.len() == 0,
            p.model().current is None,
            p.model().position == 0,
            p.model().state == PlayerStateEnum::Idle,
            p.model().config == (PlayerConfig {
                repeat_mode: RepeatMode::Off,
                shuffle: false,
                auto_next_delay_ms: 2000,
            }),
            p.events().len() == 0,
    {
        Player {
            queue: VecDeque::new(),
            history: Vec::new(),
            current_item: None,
            current_position: 0,
            state: PlayerStateEnum::Idle,
            config: PlayerConfig::default(),
            outbox: Vec::new(),
        }
    }

    /// Records an emitted event.
    fn emit(&mut self, e: AppEvent)
        ensures
            final(self).events() == old(self).events().push(e),
            final(self).model() == old(self).model(),
    {
        self.outbox.push(e);
    }

    /// Hands over the emitted events and empties the outbox.
    pub fn take_events(&mut self) -> (r: Vec<AppEvent>)
        ensures
            r@ == old(self).events(),
            final(self).events().len() == 0,
            final(self).model() == old(self).model(),
    {
        let mut out = Vec::new();
        std::mem::swap(&mut out, &mut self.outbox);
        out
    }

    /// Appends an item to the queue.
    pub fn enqueue(&mut self, item: QueueItem)
        ensures
            final(self).model() == with_queue(old(self).model(), old(self).model().queue.push(item)),
            extends_by(old(self).events(), final(self).events(), 1),
            is_queue_delta(final(self).events().last(), "added"@, seq![item.id]),
    {
        let id = item.id;
        self.queue.push_back(item);
        let mut ids = Vec::new();
        ids.push(id);
        assert(ids@ =~= seq![id]);
        let ev = queue_delta("added", ids);
        let ghost gev = ev;
        self.emit(ev);
        proof {
            lemma_extends_one(old(self).events(), gev);
        }
    }

    /// Appends several items to the queue, in order.
    pub fn enqueue_multiple(&mut self, items: Vec<QueueItem>)
        ensures
            final(self).model() == with_queue(old(self).model(), old(self).model().queue + items@),
            extends_by(old(self).events(), final(self).events(), 1),
            is_queue_delta(final(self).events().last(), "added"@, ids_of(items@)),
    {
        let mut ids: Vec<i64> = Vec::new();
        let mut i: usize = 0;
        let ghost q0 = self.queue@;
        while i < items.len()
            invariant
                i <= items.len(),
                self.queue@ == q0 + items@.take(i as int),
                ids@ == ids_of(items@.take(i as int)),
                self.history@ == old(self).history@,
                self.current_item == old(self).current_item,
                self.current_position == old(self).current_position,
                self.state == old(self).state,
                self.config == old(self).config,
                self.outbox@ == old(self).outbox@,
                q0 == old(self).queue@,
            decreases items.len() - i,
        {
            self.queue.push_back(items[i].duplicate());
            ids.push(items[i].id);
            assert(items@.take(i + 1) =~= items@.take(i as int).push(items@[i as int]));
            assert(ids_of(items@.take(i + 1)) =~= ids_of(items@.take(i as int)).push(items@[i as int].id));
            i += 1;
        }
        assert(items@.take(items.len() as int) =~= items@);
        let ev = queue_delta("added", ids);
        let ghost gev = ev;
        self.emit(ev);
        proof {
            lemma_extends_one(old(self).events(), gev);
        }
    }

    /// Inserts an item at `index` when `index` is at most the queue length; otherwise
    /// nothing happens.
    pub fn insert_at(&mut self, index: usize, item: QueueItem)
        ensures
            index <= old(self).model().queue.len() ==> {
                &&& final(self).model() == with_queue(
                    old(self).model(),
                    old(self).model().queue.insert(index as int, item),
                )
                &&& extends_by(old(self).events(), final(self).events(), 1)
                &&& is_queue_delta(final(self).events().last(), "inserted"@, seq![item.id])
            },
            index > old(self).model().queue.len() ==> final(self).model() == old(self).model()
                && final(self).events() == old(self).events(),
    {
        if index <= self.queue.len() {
            let id = item.id;
            self.queue.insert(index, item);
            let mut ids = Vec::new();
            ids.push(id);
            assert(ids@ =~= seq![id]);
            let ev = queue_delta("inserted", ids);
            let ghost gev = ev;
            self.emit(ev);
            proof {
                lemma_extends_one(old(self).events(), gev);
            }
        }
    }

    /// Removes and returns the item at `index`, or `None` when there is none.
    pub fn remove_from_queue(&mut self, index: usize) -> (r: Option<QueueItem>)
        ensures
            index < old(self).model().queue.len() ==> {
                &&& r == Some(old(self).model().queue[index as int])
                &&& final(self).model() == with_queue(
                    old(self).model(),
                    old(self).model().queue.remove(index as int),
                )
                &&& extends_by(old(self).events(), final(self).events(), 1)
                &&& is_queue_delta(
                    final(self).events().last(),
                    "removed"@,
                    seq![old(self).model().queue[index as int].id],
                )
            },
            index >= old(self).model().queue.len() ==> r is None && final(self).model()
                == old(self).model() && final(self).events() == old(self).events(),
    {
        if index < self.queue.len() {
            let item = self.queue.remove(index);
            match item {
                Some(it) => {
                    let mut ids = Vec::new();
                    ids.push(it.id);
                    assert(ids@ =~= seq![it.id]);
                    let ev = queue_delta("removed", ids);
                    let ghost gev = ev;
                    self.emit(ev);
                    proof {
                        lemma_extends_one(old(self).events(), gev);
                    }
                    Some(it)
                },
                None => None,
            }
        } else {
            None
        }
    }

    /// Empties the queue.
    pub fn clear_queue(&mut self)
        ensures
            final(self).model() == with_queue(old(self).model(), Seq::empty()),
            extends_by(old(self).events(), final(self).events(), 1),
            is_queue_delta(final(self).events().last(), "cleared"@, ids_of(old(self).model().queue)),
    {
        let mut ids: Vec<i64> = Vec::new();
        let mut i: usize = 0;
        while i < self.queue.len()
            invariant
                i <= self.queue@.len(),
                self.queue@ == old(self).queue@,
                ids@ == ids_of(self.queue@.take(i as int)),
            decreases self.queue@.len() - i,
        {
            ids.push(self.queue[i].id);
            assert(self.queue@.take(i + 1) =~= self.queue@.take(i as int).push(self.queue@[i as int]));
            assert(ids_of(self.queue@.take(i + 1)) =~= ids_of(self.queue@.take(i as int)).push(
                self.queue@[i as int].id,
            ));
            i += 1;
        }
        assert(self.queue@.take(self.queue@.len() as int) =~= self.queue@);
        self.queue.clear();
        let ev = queue_delta("cleared", ids);
        let ghost gev = ev;
        self.emit(ev);
        proof {
            lemma_extends_one(old(self).events(), gev);
        }
        assert(self.queue@ =~= Seq::<QueueItem>::empty());
    }

    /// Moves the item at `from_index` to `to_index` when both are in range and
    /// differ; otherwise nothing happens.
    pub fn move_queue_item(&mut self, from_index: usize, to_index: usize)
        ensures
            ({
                let q = old(self).model().queue;
                if from_index < q.len() && to_index < q.len() && from_index != to_index {
                    &&& final(self).model() == with_queue(
                        old(self).model(),
                        q.remove(from_index as int).insert(to_index as int, q[from_index as int]),
                    )
                    &&& extends_by(old(self).events(), final(self).events(), 1)
                    &&& is_queue_delta(final(self).events().last(), "moved"@, Seq::empty())
                } else {
                    final(self).model() == old(self).model() && final(self).events() == old(
                        self,
                    ).events()
                }
            }),
    {
        if from_index < self.queue.len() && to_index < self.queue.len() && from_index != to_index {
            let item = self.queue.remove(from_index);
            match item {
                Some(it) => {
                    self.queue.insert(to_index, it);
                },
                None => {},
            }
            let ev = queue_delta("moved", Vec::new());
            let ghost gev = ev;
            self.emit(ev);
            proof {
                lemma_extends_one(old(self).events(), gev);
            }
        }
    }

    /// Puts the queue in a random order.
    pub fn shuffle_queue(&mut self)
        ensures
            final(self).model().queue.to_multiset() == old(self).model().queue.to_multiset(),
            final(self).model() == with_queue(old(self).model(), final(self).model().queue),
            extends_by(old(self).events(), final(self).events(), 1),
            is_queue_delta(final(self).events().last(), "shuffled"@, Seq::empty()),
    {
        let mut items: Vec<QueueItem> = Vec::new();
        while self.queue.len() > 0
            invariant
                items@ + self.queue@ == old(self).queue@,
                self.history@ == old(self).history@,
                self.current_item == old(self).current_item,
                self.current_position == old(self).current_position,
                self.state == old(self).state,
                self.config == old(self).config,
                self.outbox@ == old(self).outbox@,
            decreases self.queue@.len(),
        {
            let ghost before = self.queue@;
            match self.queue.pop_front() {
                Some(it) => {
                    items.push(it);
                    assert(items@ + self.queue@ =~= old(self).queue@) by {
                        assert(before =~= seq![before[0]] + before.subrange(1, before.len() as int));
                    }
                },
                None => {},
            }
        }
        assert(items@ =~= old(self).queue@);
        let mixed = shuffled(items);
        let mut q: VecDeque<QueueItem> = VecDeque::new();
        let mut i: usize = 0;
        let n = mixed.len();
        for i in 0..n
            invariant
                n == mixed@.len(),
                q@ == mixed@.take(i as int),
        {
            q.push_back(mixed[i].duplicate());
            assert(mixed@.take(i + 1) =~= mixed@.take(i as int).push(mixed@[i as int]));
        }
        assert(mixed@.take(n as int) =~= mixed@);
        self.queue = q;
        let ev = queue_delta("shuffled", Vec::new());
        let ghost gev = ev;
        self.emit(ev);
        proof {
            lemma_extends_one(old(self).events(), gev);
        }
    }

    /// Starts the next item: takes the front of the queue (refilled from the history
    /// under repeat-all when the queue is empty), records it in the history and plays
    /// it from zero. Fails, changing nothing, when there is nothing to take.
    pub fn play_next(&mut self) -> (r: Result<(), String>)
        ensures
            r is Ok <==> can_play_next(old(self).model()),
            r is Ok ==> {
                let m = after_play_next(old(self).model());
                &&& final(self).model() == m
                &&& extends_by(old(self).events(), final(self).events(), 2)
                &&& is_player_state_event(
                    final(self).events()[old(self).events().len() as int],
                    "playing"@,
                    m.current,
                    0,
                    m.config,
                )
                &&& is_playback_event(
                    final(self).events()[old(self).events().len() + 1int],
                    "started"@,
                    m.current,
                    Some(0),
                    Some("play_next"@),
                )
            },
            r matches Err(e) ==> e@ == play_next_error(old(self).model()) && final(self).model()
                == old(self).model() && final(self).events() == old(self).events(),
    {
        if self.queue.len() == 0 {
            if self.config.repeat_mode == RepeatMode::All {
                if self.history.len() > 0 {
                    let mut refill: VecDeque<QueueItem> = VecDeque::new();
                    let n = self.history.len();
                    for i in 0..n
                        invariant
                            n == self.history@.len(),
                            refill@ == self.history@.take(i as int),
                    {
                        refill.push_back(self.history[i].duplicate());
                        assert(self.history@.take(i + 1) =~= self.history@.take(i as int).push(
                            self.history@[i as int],
                        ));
                    }
                    assert(self.history@.take(n as int) =~= self.history@);
                    self.queue = refill;
                } else {
                    return Err(String::from_str("La cola está vacía y no hay elementos en el historial"));
                }
            } else {
                return Err(String::from_str("La cola está vacía"));
            }
        }
        let ghost src = self.queue@;
        assert(src == next_source(old(self).model()));
        let next_item = match self.queue.pop_front() {
            Some(it) => it,
            None => {
                assert(false);
                return Err(String::from_str("La cola está vacía"));
            },
        };
        assert(self.queue@ =~= src.drop_first());
        self.history.push(next_item.duplicate());
        self.current_item = Some(next_item.duplicate());
        self.current_position = 0;
        self.state = PlayerStateEnum::Playing;
        let cur = Some(next_item);
        let e1 = player_state_event("playing", &cur, 0, self.config);
        let e2 = playback_event("started", &cur, Some(0), Some("play_next"));
        let ghost g1 = e1;
        let ghost g2 = e2;
        self.emit(e1);
        self.emit(e2);
        proof {
            lemma_extends_two(old(self).events(), g1, g2);
            reveal_strlit("play_next");
        }
        Ok(())
    }

    /// Goes back to the previous item: drops the current item from the history, puts
    /// it back at the front of the queue, and plays the item before it from zero.
    /// Fails, changing nothing, when the history holds fewer than two items.
    pub fn play_previous(&mut self) -> (r: Result<(), String>)
        ensures
            r is Ok <==> can_play_previous(old(self).model()),
            r is Ok ==> {
                let m = after_play_previous(old(self).model());
                &&& final(self).model() == m
                &&& extends_by(old(self).events(), final(self).events(), 2)
                &&& is_player_state_event(
                    final(self).events()[old(self).events().len() as int],
                    "playing"@,
                    m.current,
                    0,
                    m.config,
                )
                &&& is_playback_event(
                    final(self).events()[old(self).events().len() + 1int],
                    "started"@,
                    m.current,
                    Some(0),
                    Some("play_previous"@),
                )
            },
            r matches Err(e) ==> e@ == play_previous_error() && final(self).model() == old(
                self,
            ).model() && final(self).events() == old(self).events(),
    {
        if self.history.len() < 2 {
            return Err(String::from_str("No hay elementos anteriores en el historial"));
        }
        let _ = self.history.pop();
        let prev = match self.history.pop() {
            Some(p) => p,
            None => {
                assert(false);
                return Err(String::from_str("No hay elementos anteriores en el historial"));
            },
        };
        match &self.current_item {
            Some(c) => {
                self.queue.push_front(c.duplicate());
            },
            None => {},
        }
        self.current_item = Some(prev.duplicate());
        self.current_position = 0;
        self.state = PlayerStateEnum::Playing;
        let cur = Some(prev);
        let e1 = player_state_event("playing", &cur, 0, self.config);
        let e2 = playback_event("started", &cur, Some(0), Some("play_previous"));
        let ghost g1 = e1;
        let ghost g2 = e2;
        self.emit(e1);
        self.emit(e2);
        proof {
            lemma_extends_two(old(self).events(), g1, g2);
        }
        assert(self.history@ =~= old(self).history@.drop_last().drop_last());
        Ok(())
    }

    /// Plays: when nothing is current it first starts the next item (failing, with
    /// nothing changed, when there is none), then reports the player as playing and
    /// emits `resumed`.
    pub fn play(&mut self) -> (r: Result<(), String>)
        ensures
            ({
                let m0 = old(self).model();
                let e0 = old(self).events();
                if m0.current is Some {
                    let m = with_state(m0, PlayerStateEnum::Playing);
                    &&& r is Ok
                    &&& final(self).model() == m
                    &&& extends_by(e0, final(self).events(), 2)
                    &&& is_player_state_event(final(self).events()[e0.len() as int], "playing"@, m.current, m.position, m.config)
                    &&& is_playback_event(final(self).events()[e0.len() + 1int], "resumed"@, m.current, Some(m.position), None)
                } else if can_play_next(m0) {
                    let m = after_play_next(m0);
                    &&& r is Ok
                    &&& final(self).model() == m
                    &&& extends_by(e0, final(self).events(), 4)
                    &&& is_player_state_event(final(self).events()[e0.len() as int], "playing"@, m.current, 0, m.config)
                    &&& is_playback_event(final(self).events()[e0.len() + 1int], "started"@, m.current, Some(0), Some("play_next"@))
                    &&& is_player_state_event(final(self).events()[e0.len() + 2int], "playing"@, m.current, 0, m.config)
                    &&& is_playback_event(final(self).events()[e0.len() + 3int], "resumed"@, m.current, Some(0), None)
                } else {
                    &&& r matches Err(e) && e@ == play_next_error(m0)
                    &&& final(self).model() == m0
                    &&& final(self).events() == e0
                }
            }),
    {
        let ghost e0 = self.outbox@;
        if self.current_item.is_none() {
            match self.play_next() {
                Ok(()) => {},
                Err(e) => {
                    return Err(e);
                },
            }
        }
        let ghost e1 = self.outbox@;
        self.state = PlayerStateEnum::Playing;
        let cur = duplicate_opt(&self.current_item);
        let pos = self.current_position;
        let a = player_state_event("playing", &cur, pos, self.config);
        let b = playback_event("resumed", &cur, Some(pos), None);
        let ghost ga = a;
        let ghost gb = b;
        self.emit(a);
        self.emit(b);
        proof {
            lemma_extends_two(e1, ga, gb);
            if old(self).current_item is None {
                assert(self.outbox@.take(e0.len() as int) =~= e0) by {
                    assert(e1.take(e0.len() as int) == e0);
                    assert(self.outbox@.take(e1.len() as int) == e1);
                }
                assert(self.outbox@[e0.len() as int] == e1[e0.len() as int]);
                assert(self.outbox@[e0.len() + 1int] == e1[e0.len() + 1int]);
            }
        }
        Ok(())
    }

    /// Pauses a playing player; in any other state nothing happens.
    pub fn pause(&mut self)
        ensures
            ({
                let m0 = old(self).model();
                let e0 = old(self).events();
                if m0.state == PlayerStateEnum::Playing {
                    &&& final(self).model() == with_state(m0, PlayerStateEnum::Paused)
                    &&& extends_by(e0, final(self).events(), 2)
                    &&& is_player_state_event(final(self).events()[e0.len() as int], "paused"@, m0.current, m0.position, m0.config)
                    &&& is_playback_event(final(self).events()[e0.len() + 1int], "paused"@, m0.current, Some(m0.position), None)
                } else {
                    final(self).model() == m0 && final(self).events() == e0
                }
            }),
    {
        if self.state == PlayerStateEnum::Playing {
            self.state = PlayerStateEnum::Paused;
            let cur = duplicate_opt(&self.current_item);
            let pos = self.current_position;
            let a = player_state_event("paused", &cur, pos, self.config);
            let b = playback_event("paused", &cur, Some(pos), None);
            let ghost ga = a;
            let ghost gb = b;
            self.emit(a);
            self.emit(b);
            proof {
                lemma_extends_two(old(self).events(), ga, gb);
            }
        }
    }

    /// Stops: the state becomes `Stopped` and the events report position zero; the
    /// stored position and the current item are kept.
    pub fn stop(&mut self)
        ensures
            ({
                let m0 = old(self).model();
                let e0 = old(self).events();
                &&& final(self).model() == with_state(m0, PlayerStateEnum::Stopped)
                &&& extends_by(e0, final(self).events(), 2)
                &&& is_player_state_event(final(self).events()[e0.len() as int], "stopped"@, m0.current, 0, m0.config)
                &&& is_playback_event(final(self).events()[e0.len() + 1int], "stopped"@, m0.current, Some(0), None)
            }),
    {
        self.state = PlayerStateEnum::Stopped;
        let cur = duplicate_opt(&self.current_item);
        let a = player_state_event("stopped", &cur, 0, self.config);
        let b = playback_event("stopped", &cur, Some(0), None);
        let ghost ga = a;
        let ghost gb = b;
        self.emit(a);
        self.emit(b);
        proof {
            lemma_extends_two(old(self).events(), ga, gb);
        }
    }

    /// Moves the playback position; the events report the player as playing.
    pub fn seek_to(&mut self, position_ms: i64)
        ensures
            ({
                let m0 = old(self).model();
                let e0 = old(self).events();
                &&& final(self).model() == PlaybackModel { position: position_ms, ..m0 }
                &&& extends_by(e0, final(self).events(), 2)
                &&& is_player_state_event(final(self).events()[e0.len() as int], "playing"@, m0.current, position_ms, m0.config)
                &&& is_playback_event(final(self).events()[e0.len() + 1int], "seeked"@, m0.current, Some(position_ms), None)
            }),
    {
        self.current_position = position_ms;
        let cur = duplicate_opt(&self.current_item);
        let a = player_state_event("playing", &cur, position_ms, self.config);
        let b = playback_event("seeked", &cur, Some(position_ms), None);
        let ghost ga = a;
        let ghost gb = b;
        self.emit(a);
        self.emit(b);
        proof {
            lemma_extends_two(old(self).events(), ga, gb);
        }
    }

    /// Sets the repetition policy.
    pub fn set_repeat_mode(&mut self, mode: RepeatMode)
        ensures
            final(self).model() == (PlaybackModel {
                config: PlayerConfig { repeat_mode: mode, ..old(self).model().config },
                ..old(self).model()
            }),
            final(self).events() == old(self).events(),
    {
        self.config.repeat_mode = mode;
    }

    /// Sets the shuffle flag.
    pub fn set_shuffle(&mut self, shuffle: bool)
        ensures
            final(self).model() == (PlaybackModel {
                config: PlayerConfig { shuffle: shuffle, ..old(self).model().config },
                ..old(self).model()
            }),
            final(self).events() == old(self).events(),
    {
        self.config.shuffle = shuffle;
    }

    /// A copy of the queue, front first.
    pub fn get_queue(&self) -> (r: Vec<QueueItem>)
        ensures
            r@ == self.model().queue,
    {
        let mut out: Vec<QueueItem> = Vec::new();
        let n = self.queue.len();
        for i in 0..n
            invariant
                n == self.queue@.len(),
                out@ == self.queue@.take(i as int),
        {
            out.push(self.queue[i].duplicate());
            assert(self.queue@.take(i + 1) =~= self.queue@.take(i as int).push(self.queue@[i as int]));
        }
        assert(self.queue@.take(n as int) =~= self.queue@);
        out
    }

    /// The number of queued items.
    pub fn get_queue_length(&self) -> (r: usize)
        ensures
            r == self.model().queue.len(),
    {
        self.queue.len()
    }

    /// A copy of the current item.
    pub fn get_current_item(&self) -> (r: Option<QueueItem>)
        ensures
            r == self.model().current,
    {
        duplicate_opt(&self.current_item)
    }

    /// The playback position in milliseconds.
    pub fn get_current_position(&self) -> (r: i64)
        ensures
            r == self.model().position,
    {
        self.current_position
    }

    /// The player state.
    pub fn get_state(&self) -> (r: PlayerStateEnum)
        ensures
            r == self.model().state,
    {
        self.state
    }

    /// The configuration.
    pub fn get_config(&self) -> (r: PlayerConfig)
        ensures
            r == self.model().config,
    {
        self.config
    }

    /// A copy of the history, oldest first.
    pub fn get_history(&self) -> (r: Vec<QueueItem>)
        ensures
            r@ == self.model().history,
    {
        let mut out: Vec<QueueItem> = Vec::new();
        let n = self.history.len();
        for i in 0..n
            invariant
                n == self.history@.len(),
                out@ == self.history@.take(i as int),
        {
            out.push(self.history[i].duplicate());
            assert(self.history@.take(i + 1) =~= self.history@.take(i as int).push(self.history@[i as int]));
        }
        assert(self.history@.take(n as int) =~= self.history@);
        out
    }

    /// Handles the end of the current item: emits `ended` (position at the item's
    /// duration). Under repeat-one the item restarts from zero and the player reports
    /// playing; otherwise the host is told to wait the configured delay and then call
    /// `play_next`.
    pub fn on_item_finished(&mut self) -> (r: FinishAction)
        ensures
            ({
                let m0 = old(self).model();
                let e0 = old(self).events();
                &&& is_playback_event(final(self).events()[e0.len() as int], "ended"@, m0.current, duration_of(m0.current), Some("completed"@))
                &&& if m0.config.repeat_mode == RepeatMode::One {
                    &&& r == FinishAction::Repeated
                    &&& final(self).model() == PlaybackModel { position: 0, ..m0 }
                    &&& extends_by(e0, final(self).events(), 2)
                    &&& is_player_state_event(final(self).events()[e0.len() + 1int], "playing"@, m0.current, 0, m0.config)
                } else {
                    &&& r == (FinishAction::AdvanceAfter { delay_ms: m0.config.auto_next_delay_ms })
                    &&& final(self).model() == m0
                    &&& extends_by(e0, final(self).events(), 1)
                }
            }),
    {
        let cur = duplicate_opt(&self.current_item);
        let dur = match &cur {
            Some(i) => i.duration_ms,
            None => None,
        };
        let a = playback_event("ended", &cur, dur, Some("completed"));
        let ghost ga = a;
        self.emit(a);
        proof {
            lemma_extends_one(old(self).events(), ga);
        }
        if self.config.repeat_mode == RepeatMode::One {
            self.current_position = 0;
            let b = player_state_event("playing", &cur, 0, self.config);
            let ghost gb = b;
            self.emit(b);
            proof {
                lemma_extends_two(old(self).events(), ga, gb);
            }
            FinishAction::Repeated
        } else {
            FinishAction::AdvanceAfter { delay_ms: self.config.auto_next_delay_ms }
        }
    }
}


/// Going back undoes going forward: after `play_next` on a queue with an item,
/// `play_previous` restores the queue and the current item, provided the current
/// item was the last one recorded in the history.
pub proof fn law_previous_undoes_next(m: PlaybackModel)
    requires
        m.queue.len() > 0,
        m.history.len() > 0,
        m.current == Some(m.history.last()),
    ensures
        can_play_next(m),
        can_play_previous(after_play_next(m)),
        after_play_previous(after_play_next(m)).queue == m.queue,
        after_play_previous(after_play_next(m)).current == m.current,
        after_play_previous(after_play_next(m)).history == m.history.drop_last(),
{
    let n = after_play_next(m);
    assert(n.history.drop_last() =~= m.history);
    assert(seq![m.queue[0]] + m.queue.drop_first() =~= m.queue);
}

/// The queue is first in, first out: `play_next` plays the front item, removes it
/// from the queue and appends it to the history.
pub proof fn law_play_next_takes_front(m: PlaybackModel)
    requires
        m.queue.len() > 0,
    ensures
        after_play_next(m).current == Some(m.queue[0]),
        after_play_next(m).queue == m.queue.drop_first(),
        after_play_next(m).history == m.history.push(m.queue[0]),
        after_play_next(m).state == PlayerStateEnum::Playing,
        after_play_next(m).position == 0,
{
}

/// Repeat-all restarts the playlist: with the queue empty, `play_next` refills it
/// with the whole history in order, so the first item ever played becomes current
/// and the rest of the history becomes the queue.
pub proof fn law_repeat_all_restarts_from_history(m: PlaybackModel)
    requires
        m.config.repeat_mode == RepeatMode::All,
        m.queue.len() == 0,
        m.history.len() > 0,
    ensures
        can_play_next(m),
        after_play_next(m).current == Some(m.history[0]),
        after_play_next(m).queue == m.history.drop_first(),
        after_play_next(m).history == m.history.push(m.history[0]),
        after_play_next(m).state == PlayerStateEnum::Playing,
        after_play_next(m).position == 0,
{
}

/// Under repeat-all, once something can be played, `play_next` never runs dry.
pub proof fn law_repeat_all_never_runs_dry(m: PlaybackModel)
    requires
        m.config.repeat_mode == RepeatMode::All,
        can_play_next(m),
    ensures
        can_play_next(after_play_next(m)),
{
}

/// After `play_next` the current item is the last item of the history.
pub proof fn law_current_is_last_played(m: PlaybackModel)
    requires
        can_play_next(m),
    ensures
        after_play_next(m).current == Some(after_play_next(m).history.last()),
{
}

/// Moving an item keeps the same items in the queue.
pub proof fn law_move_keeps_items(q: Seq<QueueItem>, from: int, to: int)
    requires
        0 <= from < q.len(),
        0 <= to < q.len(),
    ensures
        q.remove(from).insert(to, q[from]).to_multiset() == q.to_multiset(),
        q.remove(from).insert(to, q[from]).len() == q.len(),
{
    broadcast use vstd::seq_lib::to_multiset_remove, vstd::seq_lib::to_multiset_insert;
    broadcast use vstd::multiset::group_multiset_axioms;
    assert(q.to_multiset().remove(q[from]).insert(q[from]) =~= q.to_multiset()) by {
        broadcast use vstd::seq_lib::to_multiset_contains;
        assert(q.contains(q[from]));
    }
}

/// Inserting an item and removing it again at the same position restores the
/// queue and hands the item back.
pub proof fn law_remove_undoes_insert(q: Seq<QueueItem>, i: int, item: QueueItem)
    requires
        0 <= i <= q.len(),
    ensures
        q.insert(i, item)[i] == item,
        q.insert(i, item).remove(i) == q,
{
    assert(q.insert(i, item).remove(i) =~= q);
}

/// Pausing only affects a playing player, and playing a paused player with a current
/// item resumes it without touching the queue or the history.
pub proof fn law_pause_then_play_resumes(m: PlaybackModel)
    requires
        m.state == PlayerStateEnum::Playing,
        m.current is Some,
    ensures
        with_state(with_state(m, PlayerStateEnum::Paused), PlayerStateEnum::Playing) == m,
{
}

} // verus!
