//! The model of an animation: clips of frames, how long they last, and how
//! they are played.

use vstd::prelude::*;

verus! {

/// The duration of an animation or clip, in milliseconds.
#[derive(Clone, Copy, Debug, PartialEq, Eq, Structural)]
pub enum AnimationDuration {
    /// Each frame lasts this long.
    PerFrame(u32),
    /// One repetition of all frames lasts this long.
    PerRepetition(u32),
}

/// The repeat behavior of an animation.
#[derive(Clone, Copy, Debug, PartialEq, Eq, Hash, Structural)]
pub enum AnimationRepeat {
    /// The animation starts over when it has ended.
    Loop,
    /// The animation is played this many times.
    Times(usize),
}

/// The direction of an animation or clip.
#[derive(Clone, Copy, Debug, PartialEq, Eq, Hash, Structural)]
pub enum AnimationDirection {
    /// From the first frame to the last.
    Forwards,
    /// From the last frame to the first.
    Backwards,
    /// Forwards, then backwards.
    PingPong,
}

/// A duration was given for a whole repetition, where one for each frame is
/// needed.
#[derive(Clone, Copy, Debug, PartialEq, Eq, Structural)]
pub struct UnsupportedDuration {
    /// The duration of one repetition that was given, in milliseconds.
    pub per_repetition: u32,
}

impl AnimationDuration {
    /// The time for which each frame is shown, in milliseconds. A duration
    /// for a whole repetition is not turned into one: it is refused.
    pub fn per_frame_millis(&self) -> (r: Result<u32, UnsupportedDuration>)
        ensures
            r == match *self {
                AnimationDuration::PerFrame(millis) => Ok::<u32, UnsupportedDuration>(millis),
                AnimationDuration::PerRepetition(millis) => Err::<u32, UnsupportedDuration>(
                    UnsupportedDuration { per_repetition: millis },
                ),
            },
    {
        match *self {
            AnimationDuration::PerFrame(millis) => Ok(millis),
            AnimationDuration::PerRepetition(millis) => Err(
                UnsupportedDuration { per_repetition: millis },
            ),
        }
    }
}

impl Default for AnimationRepeat {
    fn default() -> (r: Self)
        ensures
            r == AnimationRepeat::Loop,
    {
        AnimationRepeat::Loop
    }
}

impl Default for AnimationDirection {
    fn default() -> (r: Self)
        ensures
            r == AnimationDirection::Forwards,
    {
        AnimationDirection::Forwards
    }
}

/// A clip in an animation.
#[derive(Debug)]
pub struct AnimationClip {
    /// The indices of the frames in the atlas that make up the clip.
    pub atlas_indices: Vec<usize>,
    /// The duration of the clip.
    pub duration: AnimationDuration,
    /// The direction of the clip.
    pub direction: AnimationDirection,
}

/// An animation.
#[derive(Debug)]
pub struct Animation {
    /// The clips that make up the animation.
    pub clips: Vec<AnimationClip>,
    /// The repeat behavior of the animation.
    pub repeat: AnimationRepeat,
    /// The direction of the animation.
    pub direction: AnimationDirection,
}

impl AnimationClip {
    /// Whether the clip plays the `count` frames from index 0 on, in order,
    /// forwards, each for `millis` milliseconds.
    pub open spec fn is_all_frames(&self, count: nat, millis: u32) -> bool {
        &&& self.atlas_indices@ == Seq::new(count, |i: int| i as usize)
        &&& self.duration == AnimationDuration::PerFrame(millis)
        &&& self.direction == AnimationDirection::Forwards
    }

    /// The clip that plays the `count` frames from index 0 on, in order,
    /// forwards, each for `millis` milliseconds.
    pub fn all_frames(count: usize, millis: u32) -> (clip: AnimationClip)
        ensures
            clip.is_all_frames(count as nat, millis),
    {
        let mut atlas_indices: Vec<usize> = Vec::new();
        let mut i: usize = 0;
        while i < count
            invariant
                i <= count,
                atlas_indices@ == Seq::new(i as nat, |k: int| k as usize),
            decreases count - i,
        {
            atlas_indices.push(i);
            i += 1;
            assert(atlas_indices@ =~= Seq::new(i as nat, |k: int| k as usize));
        }
        AnimationClip {
            atlas_indices,
            duration: AnimationDuration::PerFrame(millis),
            direction: AnimationDirection::Forwards,
        }
    }
}

impl Animation {
    /// Whether the animation is a single clip of the `count` frames from
    /// index 0 on, each shown for `millis` milliseconds, played forwards in a
    /// loop.
    pub open spec fn is_loop_of(&self, count: nat, millis: u32) -> bool {
        &&& self.clips@.len() == 1
        &&& self.clips@[0].is_all_frames(count, millis)
        &&& self.repeat == AnimationRepeat::Loop
        &&& self.direction == AnimationDirection::Forwards
    }

    /// The animation that shows the `count` frames from index 0 on, each for
    /// `millis` milliseconds, forwards and in a loop.
    pub fn loop_of(count: usize, millis: u32) -> (animation: Animation)
        ensures
            animation.is_loop_of(count as nat, millis),
    {
        let mut clips: Vec<AnimationClip> = Vec::new();
        clips.push(AnimationClip::all_frames(count, millis));
        Animation {
            clips,
            repeat: AnimationRepeat::Loop,
            direction: AnimationDirection::Forwards,
        }
    }
}

} // verus!
