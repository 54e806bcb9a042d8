//! The buffers that are shared with the compositor.
//!
//! A buffer is in use from the moment it is attached until the compositor releases
//! it. There are at most [`POOL_SIZE`] of them; a released one is used again before
//! another is made.
use vstd::prelude::*;

use crate::drm_frame::{DrmFrame, FrameModel};

verus! {

/// Number of buffers.
pub const POOL_SIZE: usize = 3;

/// A buffer that was made.
pub struct WlBufferState {
    /// The compositor's object for it.
    pub wl_buffer: Option<u32>,
    pub drm_frame_wrapper: DrmFrame,
    pub in_use: bool,
}

/// The contents of a [`WlBufferState`].
pub struct BufferModel {
    pub wl_buffer: Option<u32>,
    pub frame: FrameModel,
    pub in_use: bool,
}

pub open spec fn buffer_model(s: Option<WlBufferState>) -> Option<BufferModel> {
    match s {
        Some(b) => Some(
            BufferModel {
                wl_buffer: b.wl_buffer,
                frame: b.drm_frame_wrapper@,
                in_use: b.in_use,
            },
        ),
        None => None,
    }
}

/// Where the next frame goes.
#[derive(Clone, Copy, Debug, PartialEq, Eq, Structural)]
pub enum BufferPlan {
    /// Into the released buffer in this place.
    Reuse(usize),
    /// Into a new buffer in this place.
    Create(usize),
}

/// What can fail while a buffer is filled.
#[derive(Clone, Copy, Debug, PartialEq, Eq, Structural)]
pub enum FillStage {
    Convert,
    DrmMap,
}

pub struct BufferPool {
    slots: Vec<Option<WlBufferState>>,
}

impl View for BufferPool {
    type V = Seq<Option<BufferModel>>;

    closed spec fn view(&self) -> Seq<Option<BufferModel>> {
        Seq::new(self.slots@.len(), |i: int| buffer_model(self.slots@[i]))
    }
}

/// The position of the first `true`, or the length where there is none.
pub open spec fn first_true(flags: Seq<bool>) -> nat
    decreases flags.len(),
{
    if flags.len() == 0 || flags[0] {
        0
    } else {
        1 + first_true(flags.skip(1))
    }
}

pub open spec fn is_reusable(b: Option<BufferModel>) -> bool {
    b is Some && !b->0.in_use
}

pub open spec fn reusable_flags(s: Seq<Option<BufferModel>>) -> Seq<bool> {
    s.map_values(|b: Option<BufferModel>| is_reusable(b))
}

pub open spec fn vacant_flags(s: Seq<Option<BufferModel>>) -> Seq<bool> {
    s.map_values(|b: Option<BufferModel>| b is None)
}

pub open spec fn holder_flags(s: Seq<Option<BufferModel>>, id: u32) -> Seq<bool> {
    s.map_values(|b: Option<BufferModel>| b is Some && b->0.wl_buffer == Some(id))
}

/// Where the next frame goes: into the first released buffer, else into the first
/// vacant place; `None` where every buffer is in use.
pub open spec fn plan_of(s: Seq<Option<BufferModel>>) -> Option<BufferPlan> {
    let reusable = first_true(reusable_flags(s));
    let vacant = first_true(vacant_flags(s));
    if reusable < s.len() {
        Some(BufferPlan::Reuse(reusable as usize))
    } else if vacant < s.len() {
        Some(BufferPlan::Create(vacant as usize))
    } else {
        None
    }
}

pub open spec fn place_of(p: BufferPlan) -> int {
    match p {
        BufferPlan::Reuse(i) => i as int,
        BufferPlan::Create(i) => i as int,
    }
}

/// The pool after the compositor released the buffer `id`: the first buffer of that
/// name is free again.
pub open spec fn released(s: Seq<Option<BufferModel>>, id: u32) -> Seq<Option<BufferModel>> {
    let i = first_true(holder_flags(s, id));
    if i < s.len() {
        s.update(i as int, Some(BufferModel { in_use: false, ..s[i as int]->0 }))
    } else {
        s
    }
}

/// The number of buffers that were made.
pub open spec fn made(s: Seq<Option<BufferModel>>) -> nat
    decreases s.len(),
{
    if s.len() == 0 {
        0
    } else {
        made(s.drop_last()) + if s.last() is Some {
            1nat
        } else {
            0
        }
    }
}

/// The number of buffers that are free to be used again.
pub open spec fn free(s: Seq<Option<BufferModel>>) -> nat
    decreases s.len(),
{
    if s.len() == 0 {
        0
    } else {
        free(s.drop_last()) + if is_reusable(s.last()) {
            1nat
        } else {
            0
        }
    }
}

proof fn lemma_first_true(flags: Seq<bool>, k: nat)
    requires
        k <= flags.len(),
        forall|j: int| 0 <= j < k ==> !flags[j],
        k == flags.len() || flags[k as int],
    ensures
        first_true(flags) == k,
    decreases k,
{
    if k > 0 {
        assert(!flags[0]);
        assert forall|j: int| 0 <= j < k - 1 implies !flags.skip(1)[j] by {
            assert(flags.skip(1)[j] == flags[j + 1]);
        }
        lemma_first_true(flags.skip(1), (k - 1) as nat);
    }
}

proof fn lemma_first_true_bounds(flags: Seq<bool>)
    ensures
        first_true(flags) <= flags.len(),
        forall|j: int| 0 <= j < first_true(flags) ==> !flags[j],
        first_true(flags) < flags.len() ==> flags[first_true(flags) as int],
    decreases flags.len(),
{
    if flags.len() > 0 && !flags[0] {
        lemma_first_true_bounds(flags.skip(1));
        assert forall|j: int| 0 <= j < first_true(flags) implies !flags[j] by {
            if j > 0 {
                assert(flags.skip(1)[j - 1] == flags[j]);
            }
        }
    }
}

impl BufferPool {
    /// There is a place for each buffer.
    #[verifier::type_invariant]
    spec fn has_places(self) -> bool {
        self.slots@.len() == POOL_SIZE
    }

    /// A pool without buffers.
    pub fn new() -> (r: Self)
        ensures
            r@ == seq![None::<BufferModel>, None, None],
    {
        let mut slots: Vec<Option<WlBufferState>> = Vec::new();
        slots.push(None);
        slots.push(None);
        slots.push(None);
        let r = BufferPool { slots };
        assert(r@ =~= seq![None::<BufferModel>, None, None]);
        r
    }

    /// Where the next frame goes; `None` where every buffer is in use.
    pub fn plan(&self) -> (r: Option<BufferPlan>)
        ensures
            r == plan_of(self@),
            self@.len() == POOL_SIZE,
    {
        proof {
            use_type_invariant(&*self);
        }
        let mut i: usize = 0;
        while i < self.slots.len()
            invariant
                i <= self.slots.len(),
                self@.len() == POOL_SIZE,
                forall|j: int| 0 <= j < i ==> !is_reusable(#[trigger] self@[j]),
            decreases self.slots.len() - i,
        {
            let usable: bool = match &self.slots[i] {
                Some(b) => !b.in_use,
                None => false,
            };
            assert(usable == is_reusable(self@[i as int]));
            if usable {
                proof {
                    lemma_first_true(reusable_flags(self@), i as nat);
                }
                return Some(BufferPlan::Reuse(i));
            }
            i += 1;
        }
        proof {
            lemma_first_true(reusable_flags(self@), self@.len());
        }
        let mut k: usize = 0;
        while k < self.slots.len()
            invariant
                k <= self.slots.len(),
                self@.len() == POOL_SIZE,
                first_true(reusable_flags(self@)) == self@.len(),
                forall|j: int| 0 <= j < k ==> (#[trigger] self@[j]) is Some,
            decreases self.slots.len() - k,
        {
            assert(self.slots@[k as int] is None <==> self@[k as int] is None);
            if self.slots[k].is_none() {
                proof {
                    lemma_first_true(vacant_flags(self@), k as nat);
                }
                return Some(BufferPlan::Create(k));
            }
            k += 1;
        }
        proof {
            lemma_first_true(vacant_flags(self@), self@.len());
        }
        None
    }

    /// Gives up the compositor's object of the buffer in `place`, before another takes
    /// its place; returns it, so that it can be destroyed.
    pub fn retire(&mut self, place: usize) -> (r: Option<u32>)
        requires
            place < old(self)@.len(),
        ensures
            old(self)@[place as int] is None ==> r is None && final(self)@ == old(self)@,
            old(self)@[place as int] matches Some(b) ==> r == b.wl_buffer && final(self)@ == old(
                self,
            )@.update(place as int, Some(BufferModel { wl_buffer: None, ..b })),
            final(self)@.len() == POOL_SIZE,
    {
        proof {
            use_type_invariant(&*self);
        }
        let ghost before = self@;
        match &mut self.slots[place] {
            Some(b) => {
                let id = b.wl_buffer;
                b.wl_buffer = None;
                assert(before[place as int] is Some);
                proof {
                    let b0 = before[place as int]->0;
                    assert(self@ =~= before.update(
                        place as int,
                        Some(BufferModel { wl_buffer: None, ..b0 }),
                    ));
                }
                id
            },
            None => {
                assert(self@ =~= before);
                None
            },
        }
    }

    /// Puts a filled buffer, in use, where the plan says.
    pub fn install(&mut self, plan: BufferPlan, frame: DrmFrame, wl_buffer: u32)
        requires
            place_of(plan) < old(self)@.len(),
        ensures
            final(self)@ == old(self)@.update(
                place_of(plan),
                Some(BufferModel { wl_buffer: Some(wl_buffer), frame: frame@, in_use: true }),
            ),
            final(self)@.len() == POOL_SIZE,
    {
        proof {
            use_type_invariant(&*self);
        }
        let ghost before = self@;
        let place: usize = match plan {
            BufferPlan::Reuse(i) => i,
            BufferPlan::Create(i) => i,
        };
        self.slots[place] = Some(
            WlBufferState { wl_buffer: Some(wl_buffer), drm_frame_wrapper: frame, in_use: true },
        );
        assert(self@ =~= before.update(
            place as int,
            Some(BufferModel { wl_buffer: Some(wl_buffer), frame: frame@, in_use: true }),
        ));
    }

    /// Takes note that the compositor released the buffer `id`.
    pub fn release(&mut self, id: u32)
        ensures
            final(self)@ == released(old(self)@, id),
            final(self)@.len() == POOL_SIZE,
    {
        proof {
            use_type_invariant(&*self);
        }
        let ghost before = self@;
        let mut i: usize = 0;
        while i < self.slots.len()
            invariant
                i <= self.slots.len(),
                self.slots@.len() == POOL_SIZE,
                before == old(self)@,
                self@ == before,
                forall|j: int|
                    0 <= j < i ==> !((#[trigger] before[j]) is Some && before[j]->0.wl_buffer
                        == Some(id)),
            decreases self.slots.len() - i,
        {
            let holds: bool = match &self.slots[i] {
                Some(b) => match b.wl_buffer {
                    Some(x) => x == id,
                    None => false,
                },
                None => false,
            };
            assert(holds == (before[i as int] is Some && before[i as int]->0.wl_buffer == Some(id)));
            if holds {
                proof {
                    lemma_first_true(holder_flags(before, id), i as nat);
                }
                match &mut self.slots[i] {
                    Some(b) => {
                        b.in_use = false;
                    },
                    None => {},
                }
                assert(self@ =~= released(before, id));
                return;
            }
            i += 1;
        }
        proof {
            lemma_first_true(holder_flags(before, id), before.len());
        }
    }

    /// The number of buffers that were made, and of those that are free.
    pub fn count(&self) -> (r: (usize, usize))
        ensures
            r.0 == made(self@),
            r.1 == free(self@),
            self@.len() == POOL_SIZE,
    {
        proof {
            use_type_invariant(&*self);
        }
        let mut total: usize = 0;
        let mut unused: usize = 0;
        let mut i: usize = 0;
        while i < self.slots.len()
            invariant
                i <= self.slots.len(),
                total == made(self@.take(i as int)),
                unused == free(self@.take(i as int)),
                total <= i,
                unused <= i,
            decreases self.slots.len() - i,
        {
            assert(self@.take(i + 1).drop_last() =~= self@.take(i as int));
            assert(self@.take(i + 1).last() == self@[i as int]);
            match &self.slots[i] {
                Some(b) => {
                    total += 1;
                    if !b.in_use {
                        unused += 1;
                    }
                },
                None => {},
            }
            i += 1;
        }
        assert(self@.take(i as int) =~= self@);
        (total, unused)
    }
}

/// What to say of a failure to fill a buffer.
pub fn failure_text(plan: BufferPlan, stage: FillStage) -> (r: &'static str)
    ensures
        r@ == match (plan, stage) {
            (BufferPlan::Reuse(_), FillStage::Convert) => "VaapiConvert reuse failed"@,
            (BufferPlan::Reuse(_), FillStage::DrmMap) => "Drm map reuse failed"@,
            (BufferPlan::Create(_), FillStage::Convert) => "VaapiConvert alloc failed"@,
            (BufferPlan::Create(_), FillStage::DrmMap) => "Drm map alloc failed"@,
        },
{
    match (plan, stage) {
        (BufferPlan::Reuse(_), FillStage::Convert) => "VaapiConvert reuse failed",
        (BufferPlan::Reuse(_), FillStage::DrmMap) => "Drm map reuse failed",
        (BufferPlan::Create(_), FillStage::Convert) => "VaapiConvert alloc failed",
        (BufferPlan::Create(_), FillStage::DrmMap) => "Drm map alloc failed",
    }
}

/// A buffer in use is never chosen.
pub proof fn law_plan_spares_used(s: Seq<Option<BufferModel>>)
    requires
        s.len() <= usize::MAX,
    ensures
        plan_of(s) matches Some(p) ==> 0 <= place_of(p) < s.len() && (s[place_of(p)] matches Some(b)
            ==> !b.in_use),
        plan_of(s) matches Some(BufferPlan::Reuse(i)) ==> s[i as int] is Some,
        plan_of(s) matches Some(BufferPlan::Create(i)) ==> s[i as int] is None,
{
    lemma_first_true_bounds(reusable_flags(s));
    lemma_first_true_bounds(vacant_flags(s));
}

/// There is no place for a frame exactly when every buffer was made and is in use.
pub proof fn law_exhausted_when_all_used(s: Seq<Option<BufferModel>>)
    ensures
        plan_of(s) is None <==> forall|i: int|
            0 <= i < s.len() ==> (#[trigger] s[i]) is Some && s[i]->0.in_use,
{
    lemma_first_true_bounds(reusable_flags(s));
    lemma_first_true_bounds(vacant_flags(s));
    if plan_of(s) is None {
        assert forall|i: int| 0 <= i < s.len() implies (#[trigger] s[i]) is Some && s[i]->0.in_use by {
            assert(!reusable_flags(s)[i]);
            assert(!vacant_flags(s)[i]);
        }
    }
}

/// A released buffer is used again before another is made.
pub proof fn law_reuse_before_create(s: Seq<Option<BufferModel>>, i: int)
    requires
        0 <= i < s.len(),
        is_reusable(s[i]),
    ensures
        plan_of(s) matches Some(BufferPlan::Reuse(_)),
{
    lemma_first_true_bounds(reusable_flags(s));
    assert(reusable_flags(s)[i]);
}

/// What is put into the pool is in use: with no release in between, the next frame
/// goes elsewhere.
pub proof fn law_installed_is_used(
    s: Seq<Option<BufferModel>>,
    p: BufferPlan,
    frame: FrameModel,
    id: u32,
)
    requires
        s.len() <= usize::MAX,
        plan_of(s) == Some(p),
    ensures
        ({
            let after = s.update(
                place_of(p),
                Some(BufferModel { wl_buffer: Some(id), frame, in_use: true }),
            );
            plan_of(after) matches Some(q) ==> place_of(q) != place_of(p)
        }),
{
    law_plan_spares_used(s);
    let after = s.update(
        place_of(p),
        Some(BufferModel { wl_buffer: Some(id), frame, in_use: true }),
    );
    law_plan_spares_used(after);
}

/// A buffer that was put into the pool and then released is free again, where no
/// buffer in front of it has the same name.
pub proof fn law_release_frees(s: Seq<Option<BufferModel>>, id: u32, i: int)
    requires
        0 <= i < s.len(),
        s[i] is Some,
        s[i]->0.wl_buffer == Some(id),
        forall|j: int| 0 <= j < i ==> !((#[trigger] s[j]) is Some && s[j]->0.wl_buffer == Some(id)),
    ensures
        is_reusable(released(s, id)[i]),
        plan_of(released(s, id)) matches Some(BufferPlan::Reuse(_)),
        forall|j: int| 0 <= j < s.len() && j != i ==> released(s, id)[j] == s[j],
{
    lemma_first_true(holder_flags(s, id), i as nat);
    law_reuse_before_create(released(s, id), i);
}

proof fn lemma_counts(s: Seq<Option<BufferModel>>)
    ensures
        free(s) <= made(s) <= s.len(),
    decreases s.len(),
{
    if s.len() > 0 {
        lemma_counts(s.drop_last());
    }
}

/// There are never more buffers than the pool has places, nor more free ones than
/// buffers; filling a place and releasing a buffer keep the number of places.
pub proof fn law_pool_is_bounded(
    s: Seq<Option<BufferModel>>,
    place: int,
    b: BufferModel,
    id: u32,
)
    requires
        s.len() == POOL_SIZE,
        0 <= place < s.len(),
    ensures
        free(s) <= made(s) <= POOL_SIZE,
        s.update(place, Some(b)).len() == POOL_SIZE,
        released(s, id).len() == POOL_SIZE,
        made(released(s, id)) == made(s),
{
    lemma_counts(s);
    lemma_first_true_bounds(holder_flags(s, id));
    let i = first_true(holder_flags(s, id));
    if i < s.len() {
        assert(holder_flags(s, id)[i as int]);
        lemma_made_update(s, i as int, BufferModel { in_use: false, ..s[i as int]->0 });
    }
}

proof fn lemma_made_update(s: Seq<Option<BufferModel>>, i: int, b: BufferModel)
    requires
        0 <= i < s.len(),
        s[i] is Some,
    ensures
        made(s.update(i, Some(b))) == made(s),
    decreases s.len(),
{
    let t = s.update(i, Some(b));
    if i == s.len() - 1 {
        assert(t.drop_last() =~= s.drop_last());
    } else {
        assert(t.drop_last() =~= s.drop_last().update(i, Some(b)));
        lemma_made_update(s.drop_last(), i, b);
    }
}

/// The first released buffer is taken; where none is released, the first place without a
/// buffer; where every place holds a buffer in use, there is none to take.
pub proof fn law_first_suitable_place_is_taken(s: Seq<Option<BufferModel>>, i: int)
    requires
        0 <= i < s.len() <= usize::MAX,
    ensures
        (s[i] matches Some(b) && !b.in_use && forall|j: int|
            0 <= j < i ==> (#[trigger] s[j] matches Some(c) ==> c.in_use)) ==> plan_of(s) == Some(
            BufferPlan::Reuse(i as usize),
        ),
        s[i] is None && (forall|j: int|
            0 <= j < s.len() ==> (#[trigger] s[j] matches Some(c) ==> c.in_use)) && (forall|j: int|
            0 <= j < i ==> #[trigger] s[j] is Some) ==> plan_of(s) == Some(
            BufferPlan::Create(i as usize),
        ),
        (forall|j: int| 0 <= j < s.len() ==> (#[trigger] s[j] matches Some(c) && c.in_use))
            ==> plan_of(s) is None,
        place_of(BufferPlan::Reuse(i as usize)) == i,
        place_of(BufferPlan::Create(i as usize)) == i,
{
    let r = reusable_flags(s);
    let v = vacant_flags(s);
    assert(forall|j: int| 0 <= j < s.len() ==> #[trigger] r[j] == is_reusable(s[j]));
    assert(forall|j: int| 0 <= j < s.len() ==> #[trigger] v[j] == (s[j] is None));
    lemma_first_true_bounds(r);
    lemma_first_true_bounds(v);
    if s[i] is Some && !s[i]->0.in_use && forall|j: int|
        0 <= j < i ==> (#[trigger] s[j] matches Some(c) ==> c.in_use) {
        lemma_first_true(r, i as nat);
    }
    if forall|j: int| 0 <= j < s.len() ==> (#[trigger] s[j] matches Some(c) ==> c.in_use) {
        lemma_first_true(r, r.len());
        if s[i] is None && forall|j: int| 0 <= j < i ==> #[trigger] s[j] is Some {
            lemma_first_true(v, i as nat);
        }
    }
    if forall|j: int| 0 <= j < s.len() ==> (#[trigger] s[j] matches Some(c) && c.in_use) {
        lemma_first_true(v, v.len());
    }
}

/// A release frees the first buffer that has the compositor's object and leaves its contents
/// and every other place as they were; one of an object that no buffer has changes nothing.
pub proof fn law_release_touches_one_buffer(s: Seq<Option<BufferModel>>, id: u32, i: int)
    ensures
        released(s, id).len() == s.len(),
        0 <= i < s.len() && (s[i] matches Some(b) && b.wl_buffer == Some(id)) && (forall|j: int|
            0 <= j < i ==> (#[trigger] s[j] matches Some(c) ==> c.wl_buffer != Some(id))) ==> {
            &&& released(s, id)[i] matches Some(b)
            &&& !b.in_use && b.wl_buffer == Some(id) && b.frame == s[i]->0.frame
            &&& forall|j: int|
                0 <= j < s.len() && j != i ==> #[trigger] released(s, id)[j] == s[j]
        },
        (forall|j: int|
            0 <= j < s.len() ==> (#[trigger] s[j] matches Some(c) ==> c.wl_buffer != Some(id)))
            ==> released(s, id) == s,
{
    let h = holder_flags(s, id);
    assert(forall|j: int|
        0 <= j < s.len() ==> #[trigger] h[j] == (s[j] is Some && s[j]->0.wl_buffer == Some(id)));
    lemma_first_true_bounds(h);
    if 0 <= i < s.len() && (s[i] matches Some(b) && b.wl_buffer == Some(id)) && (forall|j: int|
        0 <= j < i ==> (#[trigger] s[j] matches Some(c) ==> c.wl_buffer != Some(id))) {
        lemma_first_true(h, i as nat);
    }
    if forall|j: int|
        0 <= j < s.len() ==> (#[trigger] s[j] matches Some(c) ==> c.wl_buffer != Some(id)) {
        lemma_first_true(h, h.len());
    }
}

/// Each place with a buffer counts as one that was made, and as a free one where it is not in
/// use.
pub proof fn law_places_are_counted(s: Seq<Option<BufferModel>>, b: Option<BufferModel>)
    ensures
        made(Seq::empty()) == 0,
        free(Seq::empty()) == 0,
        made(s.push(b)) == made(s) + if b is Some {
            1int
        } else {
            0
        },
        free(s.push(b)) == free(s) + if b is Some && !b->0.in_use {
            1int
        } else {
            0
        },
{
    assert(s.push(b).drop_last() =~= s);
}

} // verus!
