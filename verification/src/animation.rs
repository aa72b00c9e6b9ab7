//! Animation definitions: frames, the options attached to them, and the
//! checks that a sequence of frames passes before it is accepted.

use vstd::prelude::*;

verus! {

/// What can be wrong with an animation, a catalog, or a request to an
/// animation cycle.
#[derive(Clone, Copy, Debug, PartialEq, Eq, Structural)]
pub enum AnimationError {
    /// An animation is named that the catalog does not hold.
    UnknownAnimation,
    /// A frame index lies beyond the last frame of the animation.
    FrameIndexOutOfRange,
    /// An animation has no frame.
    EmptyAnimation,
    /// A frame lasts no time, so that it could never be left.
    ZeroDuration,
}

/// An instruction attached to a frame, executed each time the frame's
/// duration has elapsed.
#[derive(Debug, PartialEq, Eq)]
pub enum AnimationOption {
    /// Move to the following frame, or to the first after the last.
    NextFrame,
    /// Move to the frame with this index.
    GoToFrame(usize),
    /// Leave this animation for the one with this name, at its first frame.
    SwitchToAnimation(String),
    /// Ask for the sound with this name to be played.
    PlaySound(String),
}

/// An option as a mathematical value.
pub enum OptionModel {
    NextFrame,
    GoToFrame(nat),
    SwitchToAnimation(Seq<char>),
    PlaySound(Seq<char>),
}

impl View for AnimationOption {
    type V = OptionModel;

    open spec fn view(&self) -> OptionModel {
        match self {
            AnimationOption::NextFrame => OptionModel::NextFrame,
            AnimationOption::GoToFrame(index) => OptionModel::GoToFrame(*index as nat),
            AnimationOption::SwitchToAnimation(name) => OptionModel::SwitchToAnimation(name@),
            AnimationOption::PlaySound(name) => OptionModel::PlaySound(name@),
        }
    }
}

/// The options of a frame as mathematical values, in their order.
pub open spec fn options_model(options: Seq<AnimationOption>) -> Seq<OptionModel> {
    Seq::new(options.len(), |k: int| options[k]@)
}

/// One frame of an animation.
#[derive(Debug, PartialEq, Eq)]
pub struct AnimationFrame {
    /// The sprite shown while the frame is current.
    pub sprite_index: usize,
    /// How long the frame lasts, in milliseconds.
    pub duration_ms: u128,
    /// What happens, in this order, when that time has elapsed.
    pub options: Vec<AnimationOption>,
}

/// A frame as a mathematical value.
pub struct FrameModel {
    pub sprite_index: nat,
    pub duration_ms: nat,
    pub options: Seq<OptionModel>,
}

impl View for AnimationFrame {
    type V = FrameModel;

    open spec fn view(&self) -> FrameModel {
        FrameModel {
            sprite_index: self.sprite_index as nat,
            duration_ms: self.duration_ms as nat,
            options: options_model(self.options@),
        }
    }
}

impl AnimationFrame {
    /// A frame that shows `sprite_index` for `duration_ms` milliseconds and
    /// then executes `options` in order.
    pub fn new(sprite_index: usize, duration_ms: u128, options: Vec<AnimationOption>) -> (frame:
        Self)
        ensures
            frame.sprite_index == sprite_index,
            frame.duration_ms == duration_ms,
            frame.options == options,
    {
        AnimationFrame { sprite_index, duration_ms, options }
    }
}

/// The frames of an animation as mathematical values, in their order.
pub open spec fn frames_model(frames: Seq<AnimationFrame>) -> Seq<FrameModel> {
    Seq::new(frames.len(), |f: int| frames[f]@)
}

/// Some frame of the sequence lasts no time.
pub open spec fn has_zero_duration(frames: Seq<FrameModel>) -> bool {
    exists|f: int| 0 <= f < frames.len() && frames[f].duration_ms == 0
}

/// The option sends the animation to a frame that a sequence of `count`
/// frames does not have.
pub open spec fn jumps_astray(option: OptionModel, count: nat) -> bool {
    option matches OptionModel::GoToFrame(index) && index >= count
}

/// One of the options does.
pub open spec fn options_jump_astray(options: Seq<OptionModel>, count: nat) -> bool {
    exists|k: int| 0 <= k < options.len() && jumps_astray(#[trigger] options[k], count)
}

/// Some option of some frame of the sequence sends the animation to a frame
/// that the sequence does not have.
pub open spec fn has_stray_jump(frames: Seq<FrameModel>) -> bool {
    exists|f: int|
        0 <= f < frames.len() && options_jump_astray(#[trigger] frames[f].options, frames.len())
}

/// The sequence can be played: it has a frame, every frame lasts some time,
/// and every jump stays inside the sequence.
pub open spec fn is_playable(frames: Seq<FrameModel>) -> bool {
    &&& frames.len() > 0
    &&& !has_zero_duration(frames)
    &&& !has_stray_jump(frames)
}

/// What keeps the sequence from being played, if anything does: that it is
/// empty; else that a frame has no duration; else that a jump goes astray.
pub open spec fn fault_of(frames: Seq<FrameModel>) -> Option<AnimationError> {
    if frames.len() == 0 {
        Some(AnimationError::EmptyAnimation)
    } else if has_zero_duration(frames) {
        Some(AnimationError::ZeroDuration)
    } else if has_stray_jump(frames) {
        Some(AnimationError::FrameIndexOutOfRange)
    } else {
        None
    }
}

/// A sequence of frames that has passed the checks of `PerFrameAnimation::new`.
#[derive(Debug)]
pub struct PerFrameAnimation {
    frames: Vec<AnimationFrame>,
}

impl View for PerFrameAnimation {
    type V = Seq<FrameModel>;

    closed spec fn view(&self) -> Seq<FrameModel> {
        frames_model(self.frames@)
    }
}

fn leaves_the_frames(options: &Vec<AnimationOption>, count: usize) -> (astray: bool)
    ensures
        astray == options_jump_astray(options_model(options@), count as nat),
{
    let ghost model = options_model(options@);
    let mut k: usize = 0;
    while k < options.len()
        invariant
            k <= options.len(),
            model == options_model(options@),
            forall|m: int| 0 <= m < k ==> !jumps_astray(#[trigger] model[m], count as nat),
        decreases options.len() - k,
    {
        assert(model[k as int] == options@[k as int]@);
        match &options[k] {
            AnimationOption::GoToFrame(index) => {
                if *index >= count {
                    return true;
                }
            },
            _ => {},
        }
        k += 1;
    }
    false
}

impl PerFrameAnimation {
    /// Every animation can be played.
    #[verifier::type_invariant]
    pub open spec fn playable(self) -> bool {
        is_playable(self@)
    }

    /// Accepts `frames` as an animation if they can be played, and says what
    /// is wrong with them if they cannot.
    ///
    /// An empty sequence is refused as `EmptyAnimation`; otherwise a frame
    /// without duration as `ZeroDuration`; otherwise a jump to a frame that
    /// the sequence does not have as `FrameIndexOutOfRange`.
    pub fn new(frames: Vec<AnimationFrame>) -> (made: Result<Self, AnimationError>)
        ensures
            match made {
                Ok(animation) => is_playable(animation@) && animation@ == frames_model(frames@),
                Err(fault) => fault_of(frames_model(frames@)) == Some(fault),
            },
    {
        if frames.len() == 0 {
            return Err(AnimationError::EmptyAnimation);
        }
        let ghost model = frames_model(frames@);
        let mut timeless: bool = false;
        let mut stray: bool = false;
        let mut f: usize = 0;
        while f < frames.len()
            invariant
                f <= frames.len(),
                model == frames_model(frames@),
                timeless == exists|g: int| 0 <= g < f && model[g].duration_ms == 0,
                stray == exists|g: int|
                    0 <= g < f && options_jump_astray(#[trigger] model[g].options, model.len()),
            decreases frames.len() - f,
        {
            let frame = &frames[f];
            assert(model[f as int] == frame@);
            let astray = leaves_the_frames(&frame.options, frames.len());
            if frame.duration_ms == 0 {
                timeless = true;
            }
            if astray {
                assert(options_jump_astray(model[f as int].options, model.len()));
                stray = true;
            }
            f += 1;
        }
        if timeless {
            Err(AnimationError::ZeroDuration)
        } else if stray {
            Err(AnimationError::FrameIndexOutOfRange)
        } else {
            Ok(PerFrameAnimation { frames })
        }
    }

    /// The frames of the animation, in their order.
    pub fn frames(&self) -> (frames: &Vec<AnimationFrame>)
        ensures
            frames_model(frames@) == self@,
            is_playable(self@),
    {
        proof {
            use_type_invariant(self);
        }
        &self.frames
    }
}

} // verus!
