//! The animation sequencer: the cursor of one animated entity, and how
//! elapsed time moves it through the frames of the catalog.

use crate::animation::{
    AnimationError,
    AnimationOption,
    FrameModel,
    OptionModel,
    frames_model,
    is_playable,
    options_model,
};
use crate::catalog::{
    Animations,
    CatalogModel,
    has_dangling_switch,
    is_playable_catalog,
    options_dangle,
};
use vstd::prelude::*;

verus! {

/// What the sequencer asks of its host, or reports to it, while it advances.
#[derive(Debug, PartialEq, Eq)]
pub enum AnimationEvent {
    /// The sound with this name is to be played.
    PlaySound(String),
    /// An option could not be carried out as written; the cycle went on.
    Diagnostic(AnimationError),
}

/// An event as a mathematical value.
pub enum EventModel {
    PlaySound(Seq<char>),
    Diagnostic(AnimationError),
}

impl View for AnimationEvent {
    type V = EventModel;

    open spec fn view(&self) -> EventModel {
        match self {
            AnimationEvent::PlaySound(name) => EventModel::PlaySound(name@),
            AnimationEvent::Diagnostic(fault) => EventModel::Diagnostic(*fault),
        }
    }
}

/// Events as mathematical values, in their order.
pub open spec fn events_model(events: Seq<AnimationEvent>) -> Seq<EventModel> {
    Seq::new(events.len(), |k: int| events[k]@)
}

/// The cursor of one animated entity.
#[derive(Debug, PartialEq, Eq)]
pub struct AnimationCycle {
    animation: String,
    frame: usize,
    elapsed_ms: u128,
}

/// A cycle as a mathematical value.
pub struct CycleModel {
    /// Name of the current animation.
    pub animation: Seq<char>,
    /// Index of the current frame.
    pub frame: nat,
    /// Milliseconds spent in the current frame.
    pub elapsed_ms: nat,
}

impl View for AnimationCycle {
    type V = CycleModel;

    closed spec fn view(&self) -> CycleModel {
        CycleModel {
            animation: self.animation@,
            frame: self.frame as nat,
            elapsed_ms: self.elapsed_ms as nat,
        }
    }
}

/// Where the options of a frame have taken a cycle.
pub struct Cursor {
    pub animation: Seq<char>,
    pub frame: nat,
    /// Whether an option has switched the animation.
    pub switched: bool,
}

/// A cursor and the events raised on the way to it.
pub struct Played {
    pub cursor: Cursor,
    pub events: Seq<EventModel>,
}

/// The frame after `frame` in a ring of `count` frames.
pub open spec fn following_frame(count: nat, frame: nat) -> nat {
    if frame + 1 < count {
        frame + 1
    } else {
        0
    }
}

/// The last index of a sequence of `count` frames.
pub open spec fn last_frame(count: nat) -> nat {
    if count > 0 {
        (count - 1) as nat
    } else {
        0
    }
}

/// One option, executed at `cursor`.
///
/// A jump beyond the current animation goes to its last frame and raises a
/// diagnostic. A switch to an animation that the catalog does not hold
/// leaves the cursor where it is and raises a diagnostic.
pub open spec fn play_option(catalog: CatalogModel, cursor: Cursor, option: OptionModel) -> Played {
    let count = catalog[cursor.animation].len();
    match option {
        OptionModel::NextFrame => Played {
            cursor: Cursor { frame: following_frame(count, cursor.frame), ..cursor },
            events: Seq::empty(),
        },
        OptionModel::GoToFrame(index) => if index < count {
            Played { cursor: Cursor { frame: index, ..cursor }, events: Seq::empty() }
        } else {
            Played {
                cursor: Cursor { frame: last_frame(count), ..cursor },
                events: seq![EventModel::Diagnostic(AnimationError::FrameIndexOutOfRange)],
            }
        },
        OptionModel::SwitchToAnimation(name) => if catalog.contains_key(name) {
            Played {
                cursor: Cursor { animation: name, frame: 0, switched: true },
                events: Seq::empty(),
            }
        } else {
            Played {
                cursor,
                events: seq![EventModel::Diagnostic(AnimationError::UnknownAnimation)],
            }
        },
        OptionModel::PlaySound(name) => Played {
            cursor,
            events: seq![EventModel::PlaySound(name)],
        },
    }
}

/// The first `n` of `options`, executed in order from `start`: each one
/// unconditionally, at the cursor that the one before it left.
pub open spec fn play_options(
    catalog: CatalogModel,
    start: Cursor,
    options: Seq<OptionModel>,
    n: nat,
) -> Played
    decreases n,
{
    if n == 0 {
        Played { cursor: start, events: Seq::empty() }
    } else {
        let before = play_options(catalog, start, options, (n - 1) as nat);
        let step = play_option(catalog, before.cursor, options[n - 1]);
        Played { cursor: step.cursor, events: before.events + step.events }
    }
}

/// The frame that is current in `cycle`, if the catalog has it.
pub open spec fn current_frame(catalog: CatalogModel, cycle: CycleModel) -> Option<FrameModel> {
    if catalog.contains_key(cycle.animation) && cycle.frame < catalog[cycle.animation].len() {
        Some(catalog[cycle.animation][cycle.frame as int])
    } else {
        None
    }
}

/// The current frame has lasted its duration. (No frame of a catalog has a
/// duration of zero.)
pub open spec fn frame_is_due(catalog: CatalogModel, cycle: CycleModel) -> bool {
    current_frame(catalog, cycle) matches Some(frame) && 0 < frame.duration_ms
        <= cycle.elapsed_ms
}

/// A cycle and the events raised on the way to it.
pub struct Advance {
    pub cycle: CycleModel,
    pub events: Seq<EventModel>,
}

/// A cycle brought up to date: as long as the current frame is due, its
/// duration is taken off the elapsed time and its options are executed. A
/// switch of animation starts the new one at no elapsed time and ends the
/// round.
pub open spec fn settle(catalog: CatalogModel, cycle: CycleModel) -> Advance
    decreases cycle.elapsed_ms,
{
    if frame_is_due(catalog, cycle) {
        let frame = catalog[cycle.animation][cycle.frame as int];
        let played = play_options(
            catalog,
            Cursor { animation: cycle.animation, frame: cycle.frame, switched: false },
            frame.options,
            frame.options.len(),
        );
        if played.cursor.switched {
            Advance {
                cycle: CycleModel {
                    animation: played.cursor.animation,
                    frame: played.cursor.frame,
                    elapsed_ms: 0,
                },
                events: played.events,
            }
        } else {
            let later = settle(
                catalog,
                CycleModel {
                    animation: played.cursor.animation,
                    frame: played.cursor.frame,
                    elapsed_ms: (cycle.elapsed_ms - frame.duration_ms) as nat,
                },
            );
            Advance { cycle: later.cycle, events: played.events + later.events }
        }
    } else {
        Advance { cycle, events: Seq::empty() }
    }
}

/// The most that a cycle's elapsed time can hold.
pub open spec fn saturated(ms: nat) -> nat {
    if ms > u128::MAX {
        u128::MAX as nat
    } else {
        ms
    }
}

/// A cycle after `elapsed_ms` more milliseconds: the time is added to what
/// the cycle holds, and the cycle is brought up to date.
pub open spec fn advance_model(catalog: CatalogModel, cycle: CycleModel, elapsed_ms: nat) -> Advance {
    settle(
        catalog,
        CycleModel { elapsed_ms: saturated(cycle.elapsed_ms + elapsed_ms), ..cycle },
    )
}

impl AnimationCycle {
    /// A cycle at the first frame of the animation `name`, with no time
    /// elapsed.
    pub fn new(name: &str) -> (cycle: Self)
        ensures
            cycle@ == (CycleModel { animation: name@, frame: 0, elapsed_ms: 0 }),
    {
        AnimationCycle { animation: name.to_owned(), frame: 0, elapsed_ms: 0 }
    }

    /// Name of the current animation.
    pub fn animation(&self) -> (name: &String)
        ensures
            name@ == self@.animation,
    {
        &self.animation
    }

    /// Index of the current frame.
    pub fn frame(&self) -> (index: usize)
        ensures
            index == self@.frame,
    {
        self.frame
    }

    /// Milliseconds spent in the current frame.
    pub fn elapsed_ms(&self) -> (ms: u128)
        ensures
            ms == self@.elapsed_ms,
    {
        self.elapsed_ms
    }

    /// The sprite of the current frame, if the catalog has that frame.
    pub fn sprite_index(&self, catalog: &Animations) -> (sprite: Option<usize>)
        ensures
            match current_frame(catalog@, self@) {
                Some(frame) => sprite is Some && sprite.unwrap() == frame.sprite_index,
                None => sprite is None,
            },
    {
        match catalog.find(&self.animation) {
            Some(animation) => {
                let frames = animation.frames();
                if self.frame < frames.len() {
                    Some(frames[self.frame].sprite_index)
                } else {
                    None
                }
            },
            None => None,
        }
    }

    /// Forces the cycle to the first frame of the animation `name`, with no
    /// time elapsed, whatever it was doing.
    ///
    /// If the catalog does not hold `name`, the request is refused with
    /// `UnknownAnimation` and the cycle stays as it was.
    pub fn switch(&mut self, catalog: &Animations, name: &str) -> (outcome: Result<
        (),
        AnimationError,
    >)
        ensures
            catalog@.contains_key(name@) ==> {
                &&& outcome == Ok::<(), AnimationError>(())
                &&& final(self)@ == (CycleModel { animation: name@, frame: 0, elapsed_ms: 0 })
            },
            !catalog@.contains_key(name@) ==> {
                &&& outcome == Err::<(), AnimationError>(AnimationError::UnknownAnimation)
                &&& *final(self) == *old(self)
            },
    {
        let owned: String = name.to_owned();
        if catalog.find(&owned).is_some() {
            self.animation = owned;
            self.frame = 0;
            self.elapsed_ms = 0;
            Ok(())
        } else {
            Err(AnimationError::UnknownAnimation)
        }
    }

    /// Executes `options` in order at the current frame, which is one of the
    /// `count` frames of the current animation, and says whether one of them
    /// switched the animation.
    fn play(
        &mut self,
        catalog: &Animations,
        count: usize,
        options: &Vec<AnimationOption>,
        events: &mut Vec<AnimationEvent>,
    ) -> (switched: bool)
        requires
            catalog@.contains_key(old(self)@.animation),
            count == catalog@[old(self)@.animation].len(),
            old(self)@.frame < count,
        ensures
            ({
                let played = play_options(
                    catalog@,
                    Cursor {
                        animation: old(self)@.animation,
                        frame: old(self)@.frame,
                        switched: false,
                    },
                    options_model(options@),
                    options.len() as nat,
                );
                &&& final(self)@.animation == played.cursor.animation
                &&& final(self)@.frame == played.cursor.frame
                &&& switched == played.cursor.switched
                &&& events_model(final(events)@) == events_model(old(events)@) + played.events
            }),
            final(self)@.elapsed_ms == old(self)@.elapsed_ms,
            catalog@.contains_key(final(self)@.animation),
            final(self)@.frame < catalog@[final(self)@.animation].len(),
    {
        let ghost start = Cursor {
            animation: self@.animation,
            frame: self@.frame,
            switched: false,
        };
        let ghost model = options_model(options@);
        let ghost raised = events_model(events@);
        let mut count: usize = count;
        let mut switched: bool = false;
        let mut k: usize = 0;
        while k < options.len()
            invariant
                k <= options.len(),
                model == options_model(options@),
                catalog@.contains_key(self@.animation),
                count == catalog@[self@.animation].len(),
                self@.frame < count,
                self@.elapsed_ms == old(self)@.elapsed_ms,
                self@.animation == play_options(catalog@, start, model, k as nat).cursor.animation,
                self@.frame == play_options(catalog@, start, model, k as nat).cursor.frame,
                switched == play_options(catalog@, start, model, k as nat).cursor.switched,
                events_model(events@) == raised + play_options(
                    catalog@,
                    start,
                    model,
                    k as nat,
                ).events,
            decreases options.len() - k,
        {
            let ghost before = play_options(catalog@, start, model, k as nat);
            let ghost step = play_option(catalog@, before.cursor, model[k as int]);
            match &options[k] {
                AnimationOption::NextFrame => {
                    self.frame = if self.frame + 1 < count {
                        self.frame + 1
                    } else {
                        0
                    };
                },
                AnimationOption::GoToFrame(index) => {
                    if *index < count {
                        self.frame = *index;
                    } else {
                        self.frame = count - 1;
                        events.push(
                            AnimationEvent::Diagnostic(AnimationError::FrameIndexOutOfRange),
                        );
                    }
                },
                AnimationOption::SwitchToAnimation(name) => {
                    match catalog.find(name) {
                        Some(animation) => {
                            let frames = animation.frames();
                            self.animation = name.clone();
                            self.frame = 0;
                            count = frames.len();
                            switched = true;
                        },
                        None => {
                            events.push(
                                AnimationEvent::Diagnostic(AnimationError::UnknownAnimation),
                            );
                        },
                    }
                },
                AnimationOption::PlaySound(name) => {
                    events.push(AnimationEvent::PlaySound(name.clone()));
                },
            }
            assert(raised + (before.events + step.events) =~= (raised + before.events)
                + step.events);
            k += 1;
        }
        switched
    }

    /// Advances the cycle by `elapsed_ms` milliseconds of wall-clock time.
    ///
    /// The time is added to the time spent in the current frame, up to the
    /// largest value that it can hold. Then, as long as the current frame has
    /// lasted its duration, the duration is taken off and the frame's options
    /// are executed in order. The events raised are returned in order. A
    /// cycle whose animation or frame the catalog does not have only gathers
    /// time.
    pub fn advance(&mut self, catalog: &Animations, elapsed_ms: u128) -> (events: Vec<
        AnimationEvent,
    >)
        ensures
            final(self)@ == advance_model(catalog@, old(self)@, elapsed_ms as nat).cycle,
            events_model(events@) == advance_model(catalog@, old(self)@, elapsed_ms as nat).events,
    {
        let mut events: Vec<AnimationEvent> = Vec::new();
        self.elapsed_ms = self.elapsed_ms.saturating_add(elapsed_ms);
        let ghost start = self@;
        match catalog.find(&self.animation) {
            None => {},
            Some(animation) => {
                let frames = animation.frames();
                loop
                    invariant_except_break
                        catalog@.contains_key(self@.animation),
                        frames_model(frames@) == catalog@[self@.animation],
                        is_playable(frames_model(frames@)),
                        settle(catalog@, start).cycle == settle(catalog@, self@).cycle,
                        settle(catalog@, start).events == events_model(events@) + settle(
                            catalog@,
                            self@,
                        ).events,
                    ensures
                        self@ == settle(catalog@, start).cycle,
                        events_model(events@) == settle(catalog@, start).events,
                    decreases self.elapsed_ms,
                {
                    if self.frame >= frames.len() {
                        break ;
                    }
                    let frame = &frames[self.frame];
                    if frame.duration_ms > self.elapsed_ms {
                        break ;
                    }
                    let ghost due = Cursor {
                        animation: self@.animation,
                        frame: self@.frame,
                        switched: false,
                    };
                    self.elapsed_ms = self.elapsed_ms - frame.duration_ms;
                    let switched = self.play(catalog, frames.len(), &frame.options, &mut events);
                    if switched {
                        self.elapsed_ms = 0;
                        break ;
                    }
                    proof {
                        lemma_stays_without_switch(
                            catalog@,
                            due,
                            frame@.options,
                            frame@.options.len(),
                        );
                    }
                }
            },
        }
        events
    }
}

/// Options that do not switch leave the cursor in its animation.
proof fn lemma_stays_without_switch(
    catalog: CatalogModel,
    start: Cursor,
    options: Seq<OptionModel>,
    n: nat,
)
    requires
        !start.switched,
    ensures
        !play_options(catalog, start, options, n).cursor.switched ==> play_options(
            catalog,
            start,
            options,
            n,
        ).cursor.animation == start.animation,
    decreases n,
{
    if n > 0 {
        lemma_stays_without_switch(catalog, start, options, (n - 1) as nat);
    }
}

/// A cycle that has been brought up to date has no frame left due.
pub proof fn lemma_nothing_left_due(catalog: CatalogModel, cycle: CycleModel)
    ensures
        !frame_is_due(catalog, settle(catalog, cycle).cycle),
    decreases cycle.elapsed_ms,
{
    if frame_is_due(catalog, cycle) {
        let frame = catalog[cycle.animation][cycle.frame as int];
        let played = play_options(
            catalog,
            Cursor { animation: cycle.animation, frame: cycle.frame, switched: false },
            frame.options,
            frame.options.len(),
        );
        if !played.cursor.switched {
            lemma_nothing_left_due(
                catalog,
                CycleModel {
                    animation: played.cursor.animation,
                    frame: played.cursor.frame,
                    elapsed_ms: (cycle.elapsed_ms - frame.duration_ms) as nat,
                },
            );
        }
    }
}

/// After an advance the time spent in the current frame is less than the
/// frame lasts, if the catalog has the frame.
pub proof fn lemma_advance_catches_up(catalog: CatalogModel, cycle: CycleModel, elapsed_ms: nat)
    requires
        is_playable_catalog(catalog),
    ensures
        match current_frame(catalog, advance_model(catalog, cycle, elapsed_ms).cycle) {
            Some(frame) => advance_model(catalog, cycle, elapsed_ms).cycle.elapsed_ms
                < frame.duration_ms,
            None => true,
        },
{
    lemma_nothing_left_due(
        catalog,
        CycleModel { elapsed_ms: saturated(cycle.elapsed_ms + elapsed_ms), ..cycle },
    );
}

/// The cursor stands on a frame of the catalog.
pub open spec fn is_on_a_frame(catalog: CatalogModel, cursor: Cursor) -> bool {
    catalog.contains_key(cursor.animation) && cursor.frame < catalog[cursor.animation].len()
}

/// Options never take a cursor off the frames of a playable catalog.
pub proof fn lemma_options_stay_on_a_frame(
    catalog: CatalogModel,
    start: Cursor,
    options: Seq<OptionModel>,
    n: nat,
)
    requires
        is_playable_catalog(catalog),
        is_on_a_frame(catalog, start),
    ensures
        is_on_a_frame(catalog, play_options(catalog, start, options, n).cursor),
    decreases n,
{
    if n > 0 {
        lemma_options_stay_on_a_frame(catalog, start, options, (n - 1) as nat);
    }
}

/// A cycle that stands on a frame of a playable catalog still stands on one
/// when it has been brought up to date.
pub proof fn lemma_settle_stays_on_a_frame(catalog: CatalogModel, cycle: CycleModel)
    requires
        is_playable_catalog(catalog),
        current_frame(catalog, cycle) is Some,
    ensures
        current_frame(catalog, settle(catalog, cycle).cycle) is Some,
    decreases cycle.elapsed_ms,
{
    if frame_is_due(catalog, cycle) {
        let frame = catalog[cycle.animation][cycle.frame as int];
        let start = Cursor { animation: cycle.animation, frame: cycle.frame, switched: false };
        let played = play_options(catalog, start, frame.options, frame.options.len());
        lemma_options_stay_on_a_frame(catalog, start, frame.options, frame.options.len());
        if !played.cursor.switched {
            lemma_settle_stays_on_a_frame(
                catalog,
                CycleModel {
                    animation: played.cursor.animation,
                    frame: played.cursor.frame,
                    elapsed_ms: (cycle.elapsed_ms - frame.duration_ms) as nat,
                },
            );
        }
    }
}

/// An advance never takes a cycle off the frames of a playable catalog.
pub proof fn lemma_advance_stays_on_a_frame(
    catalog: CatalogModel,
    cycle: CycleModel,
    elapsed_ms: nat,
)
    requires
        is_playable_catalog(catalog),
        current_frame(catalog, cycle) is Some,
    ensures
        current_frame(catalog, advance_model(catalog, cycle, elapsed_ms).cycle) is Some,
{
    lemma_settle_stays_on_a_frame(
        catalog,
        CycleModel { elapsed_ms: saturated(cycle.elapsed_ms + elapsed_ms), ..cycle },
    );
}

/// No event of the sequence reports an unknown animation.
pub open spec fn reports_no_unknown_animation(events: Seq<EventModel>) -> bool {
    forall|k: int|
        0 <= k < events.len() ==> events[k] != EventModel::Diagnostic(
            AnimationError::UnknownAnimation,
        )
}

/// Options that switch only to animations of the catalog report no unknown
/// animation.
pub proof fn lemma_options_find_their_animations(
    catalog: CatalogModel,
    start: Cursor,
    options: Seq<OptionModel>,
    n: nat,
)
    requires
        n <= options.len(),
        !options_dangle(catalog, options),
    ensures
        reports_no_unknown_animation(play_options(catalog, start, options, n).events),
    decreases n,
{
    if n > 0 {
        lemma_options_find_their_animations(catalog, start, options, (n - 1) as nat);
    }
}

/// In a catalog whose switches all lead to animations of the catalog,
/// bringing a cycle up to date reports no unknown animation.
pub proof fn lemma_settle_finds_its_animations(catalog: CatalogModel, cycle: CycleModel)
    requires
        !has_dangling_switch(catalog),
    ensures
        reports_no_unknown_animation(settle(catalog, cycle).events),
    decreases cycle.elapsed_ms,
{
    if frame_is_due(catalog, cycle) {
        let frame = catalog[cycle.animation][cycle.frame as int];
        let start = Cursor { animation: cycle.animation, frame: cycle.frame, switched: false };
        let played = play_options(catalog, start, frame.options, frame.options.len());
        lemma_options_find_their_animations(catalog, start, frame.options, frame.options.len());
        if !played.cursor.switched {
            lemma_settle_finds_its_animations(
                catalog,
                CycleModel {
                    animation: played.cursor.animation,
                    frame: played.cursor.frame,
                    elapsed_ms: (cycle.elapsed_ms - frame.duration_ms) as nat,
                },
            );
        }
    }
}

/// A catalog that has passed validation never has an advance report an
/// unknown animation.
pub proof fn lemma_validated_catalog_finds_its_animations(
    catalog: CatalogModel,
    cycle: CycleModel,
    elapsed_ms: nat,
)
    requires
        !has_dangling_switch(catalog),
    ensures
        reports_no_unknown_animation(advance_model(catalog, cycle, elapsed_ms).events),
{
    lemma_settle_finds_its_animations(
        catalog,
        CycleModel { elapsed_ms: saturated(cycle.elapsed_ms + elapsed_ms), ..cycle },
    );
}

} // verus!
