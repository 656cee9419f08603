//! The history of a run: an ordered sequence of snapshots, one per tick and
//! one for the initial state, each holding one vector per entity.
//!
//! A history is allocated once, for the known number of snapshots, as a
//! rank-three array of raw coordinates (snapshot, entity, axis) and filled
//! tick by tick. What the array does is taken from the `ndarray` crate on
//! trust; every function here that is not marked as trusted is verified
//! against those few statements.

use crate::error::TraceError;
use crate::fixed::Fixed;
use crate::vector::Vec2;
use vstd::prelude::*;

verus! {

/// A history of positions or velocities.
///
/// Trusted: the array of the `ndarray` crate is opaque to the verifier, and
/// what it holds is known only through [`trajectory_frames`] and
/// [`trajectory_width`]. The field is private and every array is made by
/// `Array3::zeros` with a last axis of length two.
#[verifier::external_body]
#[derive(Debug)]
pub struct Trajectory {
    tensor: ndarray::Array3<i64>,
}

/// The snapshots that a trajectory holds, in order: cell `[t, i, 0]` of the
/// array is the raw abscissa of entity `i` in snapshot `t`, and cell
/// `[t, i, 1]` its raw ordinate.
pub uninterp spec fn trajectory_frames(t: Trajectory) -> Seq<Seq<Vec2>>;

/// The number of entities that a trajectory was made for, which every one
/// of its snapshots holds: the length of the second axis of the array. A
/// trajectory without a snapshot has it too.
pub uninterp spec fn trajectory_width(t: Trajectory) -> nat;

impl View for Trajectory {
    type V = Seq<Seq<Vec2>>;

    open spec fn view(&self) -> Seq<Seq<Vec2>> {
        trajectory_frames(*self)
    }
}

impl Trajectory {
    /// The number of entities that the history was made for.
    pub open spec fn width(&self) -> nat {
        trajectory_width(*self)
    }
}

/// The snapshots of `frames` as sequences.
pub open spec fn frames_view(frames: Seq<Vec<Vec2>>) -> Seq<Seq<Vec2>> {
    Seq::new(frames.len(), |k: int| frames[k]@)
}

/// The vector with both coordinates zero.
pub open spec fn origin() -> Vec2 {
    Vec2 { x: Fixed { raw: 0 }, y: Fixed { raw: 0 } }
}

/// `len` snapshots of `width` entities, all at the origin.
pub open spec fn blank(len: nat, width: nat) -> Seq<Seq<Vec2>> {
    Seq::new(len, |t: int| Seq::new(width, |i: int| origin()))
}

/// `n`, or one where `n` is zero.
pub open spec fn at_least_one(n: nat) -> nat {
    if n == 0 {
        1
    } else {
        n
    }
}

/// Whether a history of `len` snapshots of `width` entities can be
/// allocated: its coordinates, of eight bytes each, must not take more
/// bytes than the largest `isize`, nor would they if an empty axis had
/// length one.
pub open spec fn history_fits(len: nat, width: nat) -> bool {
    at_least_one(len) * at_least_one(width) * 16 <= isize::MAX
}

/// A history that can be allocated has fewer snapshots, and fewer entities
/// in each, than `isize` can count.
pub proof fn lemma_history_bounds(len: nat, width: nat)
    requires
        history_fits(len, width),
    ensures
        len * 16 <= isize::MAX,
        width * 16 <= isize::MAX,
{
    assert(len * 16 <= at_least_one(len) * at_least_one(width) * 16 && width * 16 <= at_least_one(
        len,
    ) * at_least_one(width) * 16) by (nonlinear_arith)
        requires
            at_least_one(len) >= len,
            at_least_one(len) >= 1,
            at_least_one(width) >= width,
            at_least_one(width) >= 1,
    ;
}

/// Trusted: `Array3::zeros` of `ndarray`. It returns an array of the shape
/// asked for, `width` being the length of its second axis, in which every
/// cell is zero. It panics where the product of
/// the axis lengths that are not zero is beyond `isize`, and the vector
/// behind it where the bytes are; `requires` leaves both out. Whether the
/// machine has the memory is not part of the statement.
#[verifier::external_body]
fn tensor_zeros(len: usize, width: usize) -> (t: Trajectory)
    requires
        history_fits(len as nat, width as nat),
    ensures
        trajectory_frames(t) == blank(len as nat, width as nat),
        trajectory_width(t) == width,
{
    Trajectory { tensor: ndarray::Array3::zeros((len, width, 2)) }
}

/// Trusted: `ArrayBase::len_of` of `ndarray`, for the first two axes. It
/// returns the lengths of the axes: the number of snapshots, and the number
/// of entities that the array was made for, which is the same in every
/// snapshot.
#[verifier::external_body]
fn tensor_dims(t: &Trajectory) -> (d: (usize, usize))
    ensures
        d.0 == trajectory_frames(*t).len(),
        d.1 == trajectory_width(*t),
        forall|k: int|
            0 <= k < trajectory_frames(*t).len() ==> (#[trigger] trajectory_frames(*t)[k]).len()
                == d.1,
{
    (t.tensor.len_of(ndarray::Axis(0)), t.tensor.len_of(ndarray::Axis(1)))
}

/// Trusted: indexing of `ndarray` (`Index` on `ArrayBase`). It returns the
/// cell at the index, and panics where the index is out of bounds, which
/// `requires` leaves out.
#[verifier::external_body]
fn tensor_get(t: &Trajectory, k: usize, i: usize) -> (v: Vec2)
    requires
        k < trajectory_frames(*t).len(),
        i < trajectory_frames(*t)[k as int].len(),
    ensures
        v == trajectory_frames(*t)[k as int][i as int],
{
    Vec2 { x: Fixed { raw: t.tensor[[k, i, 0]] }, y: Fixed { raw: t.tensor[[k, i, 1]] } }
}

/// Trusted: assignment through indexing of `ndarray` (`IndexMut` on
/// `ArrayBase`). It replaces the cell at the index and leaves every other
/// cell and the shape as they were; it panics where the index is out of
/// bounds, which `requires` leaves out.
#[verifier::external_body]
fn tensor_put(t: &mut Trajectory, k: usize, i: usize, v: Vec2)
    requires
        k < trajectory_frames(*old(t)).len(),
        i < trajectory_frames(*old(t))[k as int].len(),
    ensures
        trajectory_frames(*final(t)) == trajectory_frames(*old(t)).update(
            k as int,
            trajectory_frames(*old(t))[k as int].update(i as int, v),
        ),
        trajectory_width(*final(t)) == trajectory_width(*old(t)),
{
    t.tensor[[k, i, 0]] = v.x.raw;
    t.tensor[[k, i, 1]] = v.y.raw;
}

/// Whether a history of `len` snapshots of `width` entities can be allocated.
pub fn can_allocate(len: usize, width: usize) -> (ok: bool)
    ensures
        ok == history_fits(len as nat, width as nat),
{
    let a: u128 = if len == 0 {
        1
    } else {
        len as u128
    };
    let b: u128 = if width == 0 {
        1
    } else {
        width as u128
    };
    assert(a * b <= 0xFFFF_FFFF_FFFF_FFFF * 0xFFFF_FFFF_FFFF_FFFF) by (nonlinear_arith)
        requires
            0 <= a <= 0xFFFF_FFFF_FFFF_FFFF,
            0 <= b <= 0xFFFF_FFFF_FFFF_FFFF,
    ;
    assert(at_least_one(len as nat) * at_least_one(width as nat) * 16 == (a * b) * 16)
        by (nonlinear_arith)
        requires
            at_least_one(len as nat) == a,
            at_least_one(width as nat) == b,
    ;
    a * b <= (isize::MAX as u128) / 16
}

impl Trajectory {
    /// A history of `len` snapshots of `width` entities, all at the origin,
    /// if it can be allocated.
    pub fn zeros(len: usize, width: usize) -> (r: Option<Trajectory>)
        ensures
            match r {
                Some(t) => history_fits(len as nat, width as nat) && t@ == blank(
                    len as nat,
                    width as nat,
                ) && t.width() == width,
                None => !history_fits(len as nat, width as nat),
            },
    {
        if can_allocate(len, width) {
            Some(tensor_zeros(len, width))
        } else {
            None
        }
    }

    /// Number of snapshots.
    pub fn len(&self) -> (n: usize)
        ensures
            n == self@.len(),
    {
        tensor_dims(self).0
    }

    /// Number of entities that the history was made for, which every
    /// snapshot holds.
    pub fn entities(&self) -> (n: usize)
        ensures
            n == self.width(),
            forall|k: int| 0 <= k < self@.len() ==> (#[trigger] self@[k]).len() == n,
    {
        tensor_dims(self).1
    }

    /// The vector of entity `i` in snapshot `t`.
    pub fn get(&self, t: usize, i: usize) -> (v: Vec2)
        requires
            t < self@.len(),
            i < self@[t as int].len(),
        ensures
            v == self@[t as int][i as int],
    {
        tensor_get(self, t, i)
    }

    /// The vector of entity `i` in snapshot `t`, if there is one.
    pub fn try_get(&self, t: usize, i: usize) -> (v: Option<Vec2>)
        ensures
            v == (if t < self@.len() && i < self@[t as int].len() {
                Some(self@[t as int][i as int])
            } else {
                None
            }),
    {
        let (len, width) = tensor_dims(self);
        if t < len && i < width {
            Some(tensor_get(self, t, i))
        } else {
            None
        }
    }

    /// Snapshot `t`.
    pub fn frame(&self, t: usize) -> (f: Vec<Vec2>)
        requires
            t < self@.len(),
        ensures
            f@ == self@[t as int],
    {
        let (len, width) = tensor_dims(self);
        let mut f: Vec<Vec2> = Vec::new();
        let mut i: usize = 0;
        while i < width
            invariant
                i <= width,
                t < self@.len(),
                self@[t as int].len() == width,
                f@.len() == i,
                forall|j: int| 0 <= j < i ==> f@[j] == self@[t as int][j],
            decreases width - i,
        {
            f.push(tensor_get(self, t, i));
            i += 1;
        }
        assert(f@ =~= self@[t as int]);
        f
    }

    /// Replaces snapshot `t`.
    pub fn write(&mut self, t: usize, frame: &Vec<Vec2>)
        requires
            t < old(self)@.len(),
            frame@.len() == old(self)@[t as int].len(),
        ensures
            final(self)@ == old(self)@.update(t as int, frame@),
            final(self).width() == old(self).width(),
    {
        let mut i: usize = 0;
        while i < frame.len()
            invariant
                i <= frame@.len(),
                t < old(self)@.len(),
                frame@.len() == old(self)@[t as int].len(),
                self@.len() == old(self)@.len(),
                self.width() == old(self).width(),
                forall|k: int| 0 <= k < self@.len() && k != t ==> self@[k] == old(self)@[k],
                self@[t as int].len() == frame@.len(),
                forall|j: int| 0 <= j < i ==> self@[t as int][j] == frame@[j],
            decreases frame@.len() - i,
        {
            tensor_put(self, t, i, frame[i]);
            i += 1;
        }
        assert(self@[t as int] =~= frame@);
        assert(self@ =~= old(self)@.update(t as int, frame@));
    }

    /// The history for `width` entities with the given snapshots, each of
    /// which must hold that many; they must not be too many to allocate.
    pub fn from_snapshots(width: usize, frames: &Vec<Vec<Vec2>>) -> (r: Result<
        Trajectory,
        TraceError,
    >)
        ensures
            match r {
                Ok(t) => t@ == frames_view(frames@) && t.width() == width && !snapshots_fail(
                    width as nat,
                    frames@,
                ),
                Err(e) => e == TraceError::InvalidConfiguration && snapshots_fail(
                    width as nat,
                    frames@,
                ),
            },
    {
        let mut t = match Trajectory::zeros(frames.len(), width) {
            Some(t) => t,
            None => { return Err(TraceError::InvalidConfiguration); },
        };
        let mut k: usize = 0;
        while k < frames.len()
            invariant
                k <= frames@.len(),
                history_fits(frames@.len(), width as nat),
                t@.len() == frames@.len(),
                t.width() == width,
                forall|j: int| 0 <= j < k ==> t@[j] == (#[trigger] frames@[j])@,
                forall|j: int| 0 <= j < k ==> (#[trigger] frames@[j])@.len() == width,
                forall|j: int| k <= j < frames@.len() ==> (#[trigger] t@[j]).len() == width,
            decreases frames@.len() - k,
        {
            if frames[k].len() != width {
                return Err(TraceError::InvalidConfiguration);
            }
            t.write(k, &frames[k]);
            k += 1;
        }
        assert(t@ =~= frames_view(frames@));
        Ok(t)
    }

    /// The history with the given snapshots, made for as many entities as
    /// the first of them holds, or for none where there is no snapshot.
    pub fn from_frames(frames: &Vec<Vec<Vec2>>) -> (r: Result<Trajectory, TraceError>)
        ensures
            match r {
                Ok(t) => t@ == frames_view(frames@) && t.width() == first_width(frames@)
                    && !snapshots_fail(first_width(frames@), frames@),
                Err(e) => e == TraceError::InvalidConfiguration && snapshots_fail(
                    first_width(frames@),
                    frames@,
                ),
            },
    {
        let width = if frames.len() == 0 {
            0
        } else {
            frames[0].len()
        };
        Trajectory::from_snapshots(width, frames)
    }

    /// The snapshots, copied out.
    pub fn to_frames(&self) -> (frames: Vec<Vec<Vec2>>)
        ensures
            frames_view(frames@) == self@,
    {
        let len = self.len();
        let mut frames: Vec<Vec<Vec2>> = Vec::new();
        let mut k: usize = 0;
        while k < len
            invariant
                k <= len,
                len == self@.len(),
                frames@.len() == k,
                forall|j: int| 0 <= j < k ==> (#[trigger] frames@[j])@ == self@[j],
            decreases len - k,
        {
            frames.push(self.frame(k));
            k += 1;
        }
        assert(frames_view(frames@) =~= self@);
        frames
    }
}

/// The number of entities in the first snapshot, or none where there is no snapshot.
pub open spec fn first_width(frames: Seq<Vec<Vec2>>) -> nat {
    if frames.len() == 0 {
        0
    } else {
        frames[0]@.len()
    }
}

/// Whether snapshots cannot make a history for `width` entities: one of
/// them holds another number, or they are too many to allocate.
pub open spec fn snapshots_fail(width: nat, frames: Seq<Vec<Vec2>>) -> bool {
    ||| exists|k: int| 0 <= k < frames.len() && (#[trigger] frames[k])@.len() != width
    ||| !history_fits(frames.len(), width)
}

} // verus!
