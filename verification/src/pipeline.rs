//! The ordered list of transform steps that is applied to an image. Each
//! step has an identifier, carries its transform and can be switched off.

use vstd::prelude::*;

use crate::gray_image::GrayImage;

verus! {

/// A step as a value: its identifier, its transform and whether it is on.
pub type StepView<T> = (u128, T, bool);

/// One step of a pipeline.
pub struct PipelineStep<T> {
    id: u128,
    transform: T,
    active: bool,
}

impl<T> View for PipelineStep<T> {
    type V = StepView<T>;

    closed spec fn view(&self) -> StepView<T> {
        (self.id, self.transform, self.active)
    }
}

/// Whether `id` has the shape of a random (version 4, RFC 4122 variant) UUID.
pub open spec fn is_random_uuid(id: u128) -> bool {
    id & 0x0000_0000_0000_f000_c000_0000_0000_0000u128 == 0x0000_0000_0000_4000_8000_0000_0000_0000u128
}

/// A fresh random step identifier. Trusted: returns `uuid::Uuid::new_v4()` as
/// an integer (`Uuid::as_u128`). The value is random; the contract claims only
/// that its version bits say 4 and its variant bits say RFC 4122, which
/// `new_v4` sets whatever the random bits are.
#[verifier::external_body]
fn random_step_id() -> (res: u128)
    ensures
        is_random_uuid(res),
{
    uuid::Uuid::new_v4().as_u128()
}

impl<T> PipelineStep<T> {
    /// A new, active step with a fresh random identifier.
    pub fn new(transform: T) -> (res: Self)
        ensures
            res@.1 == transform,
            res@.2,
            is_random_uuid(res@.0),
    {
        PipelineStep { id: random_step_id(), transform, active: true }
    }

    /// A step made of the given parts.
    pub fn from_parts(id: u128, transform: T, active: bool) -> (res: Self)
        ensures
            res@ == (id, transform, active),
    {
        PipelineStep { id, transform, active }
    }

    /// The parts of the step.
    pub fn into_parts(self) -> (res: (u128, T, bool))
        ensures
            res == self@,
    {
        (self.id, self.transform, self.active)
    }

    /// The identifier of the step.
    pub fn id(&self) -> (res: u128)
        ensures
            res == self@.0,
    {
        self.id
    }

    /// The transform of the step.
    pub fn transform(&self) -> (res: &T)
        ensures
            *res == self@.1,
    {
        &self.transform
    }

    /// The transform of the step, to be edited.
    pub fn transform_mut(&mut self) -> (res: &mut T)
        ensures
            *res == old(self)@.1,
            final(self)@ == (old(self)@.0, *final(res), old(self)@.2),
    {
        &mut self.transform
    }

    /// Whether the step is applied.
    pub fn is_active(&self) -> (res: bool)
        ensures
            res == self@.2,
    {
        self.active
    }

    /// Switches the step on.
    pub fn activate(&mut self)
        ensures
            final(self)@ == (old(self)@.0, old(self)@.1, true),
    {
        self.active = true;
    }

    /// Switches the step off.
    pub fn deactivate(&mut self)
        ensures
            final(self)@ == (old(self)@.0, old(self)@.1, false),
    {
        self.active = false;
    }

    /// Switches the step on if it was off, and off if it was on.
    pub fn toggle(&mut self)
        ensures
            final(self)@ == (old(self)@.0, old(self)@.1, !old(self)@.2),
    {
        self.active = !self.active;
    }

    /// The image after this step: what `apply` makes of it with the step's
    /// transform when the step is on, the image itself when it is off.
    pub fn apply_to<F: Fn(&T, GrayImage) -> GrayImage>(&self, image: GrayImage, apply: &F) -> (res:
        GrayImage)
        requires
            self@.2 ==> apply.requires((&self@.1, image)),
        ensures
            if self@.2 {
                call_ensures(*apply, (&self@.1, image), res)
            } else {
                res == image
            },
    {
        if self.active {
            apply(&self.transform, image)
        } else {
            image
        }
    }
}

/// The element at `i`, to be changed in place.
pub(crate) fn element_mut<T>(s: &mut [T], i: usize) -> (res: &mut T)
    requires
        i < old(s)@.len(),
    ensures
        *res == old(s)@[i as int],
        final(s)@ == old(s)@.update(i as int, *final(res)),
{
    let (_, right) = s.split_at_mut(i);
    right.first_mut().unwrap()
}

/// `i` is the position of the first step of `steps` whose identifier is `id`.
pub open spec fn is_first_with_id<T>(steps: Seq<StepView<T>>, id: u128, i: int) -> bool {
    &&& 0 <= i < steps.len()
    &&& steps[i].0 == id
    &&& forall|j: int| 0 <= j < i ==> #[trigger] steps[j].0 != id
}

/// Whether some step of `steps` has the identifier `id`.
pub open spec fn has_id<T>(steps: Seq<StepView<T>>, id: u128) -> bool {
    exists|j: int| 0 <= j < steps.len() && #[trigger] steps[j].0 == id
}

/// The steps with the step at `from` taken out and put back at `to`
/// (a position in the list without it).
pub open spec fn moved<A>(s: Seq<A>, from: int, to: int) -> Seq<A> {
    s.remove(from).insert(to, s[from])
}

/// Where `move_step` puts a step that stands at `source` when asked for
/// `target`: `target` is clamped to the length, and counts the step itself
/// when it lies after it.
pub open spec fn move_destination(len: int, source: int, target: int) -> int {
    let t: int = if target < len {
        target
    } else {
        len
    };
    if t > source {
        t - 1
    } else {
        t
    }
}

/// The steps with the `active` flag of step `i` replaced by `active`.
pub open spec fn with_active<T>(steps: Seq<StepView<T>>, i: int, active: bool) -> Seq<StepView<T>> {
    steps.update(i, (steps[i].0, steps[i].1, active))
}

/// The position of the first step whose identifier is `id` (meaningful
/// when there is one).
pub open spec fn first_index<T>(steps: Seq<StepView<T>>, id: u128) -> int {
    choose|i: int| is_first_with_id(steps, id, i)
}

/// The first position of an identifier is unique, and exists when the
/// identifier occurs.
pub proof fn lemma_first_index<T>(steps: Seq<StepView<T>>, id: u128)
    ensures
        has_id(steps, id) ==> is_first_with_id(steps, id, first_index(steps, id)),
        forall|i: int| #[trigger] is_first_with_id(steps, id, i) ==> i == first_index(steps, id),
{
    if has_id(steps, id) {
        let w: int = choose|j: int| 0 <= j < steps.len() && #[trigger] steps[j].0 == id;
        lemma_first_occurrence_exists(steps, id, w);
    }
    assert forall|i: int| #[trigger] is_first_with_id(steps, id, i) implies i == first_index(
        steps,
        id,
    ) by {
        let c: int = first_index(steps, id);
        if i < c {
            assert(steps[i].0 != id);
        } else if c < i {
            assert(steps[c].0 != id);
        }
    }
}

proof fn lemma_first_occurrence_exists<T>(steps: Seq<StepView<T>>, id: u128, w: int)
    requires
        0 <= w < steps.len(),
        steps[w].0 == id,
    ensures
        exists|i: int| is_first_with_id(steps, id, i),
    decreases w,
{
    if forall|j: int| 0 <= j < w ==> #[trigger] steps[j].0 != id {
        assert(is_first_with_id(steps, id, w));
    } else {
        let k: int = choose|j: int| 0 <= j < w && #[trigger] steps[j].0 == id;
        lemma_first_occurrence_exists(steps, id, k);
    }
}

/// The steps and the answer that `move_step(id, target)` gives.
pub open spec fn move_step_outcome<T>(steps: Seq<StepView<T>>, id: u128, target: int) -> (
    Seq<StepView<T>>,
    bool,
) {
    if !has_id(steps, id) {
        (steps, false)
    } else {
        let source: int = first_index(steps, id);
        let dest: int = move_destination(steps.len() as int, source, target);
        if dest == source {
            (steps, false)
        } else {
            (moved(steps, source, dest), true)
        }
    }
}

/// The steps with the flag of the first step whose identifier is `id` set
/// to `active` (unchanged when there is no such step).
pub open spec fn with_flag_of<T>(steps: Seq<StepView<T>>, id: u128, active: bool) -> Seq<
    StepView<T>,
> {
    if has_id(steps, id) {
        with_active(steps, first_index(steps, id), active)
    } else {
        steps
    }
}

/// The steps with the flag of the first step whose identifier is `id`
/// switched (unchanged when there is no such step).
pub open spec fn with_flag_switched<T>(steps: Seq<StepView<T>>, id: u128) -> Seq<StepView<T>> {
    if has_id(steps, id) {
        with_active(steps, first_index(steps, id), !steps[first_index(steps, id)].2)
    } else {
        steps
    }
}

/// The steps without the first step whose identifier is `id` (unchanged
/// when there is no such step).
pub open spec fn without_id<T>(steps: Seq<StepView<T>>, id: u128) -> Seq<StepView<T>> {
    if has_id(steps, id) {
        steps.remove(first_index(steps, id))
    } else {
        steps
    }
}

/// The values of the steps `s`.
pub open spec fn step_views<T>(s: Seq<PipelineStep<T>>) -> Seq<StepView<T>> {
    s.map_values(|x: PipelineStep<T>| x@)
}

/// An ordered list of steps.
pub struct Pipeline<T> {
    steps: Vec<PipelineStep<T>>,
}

impl<T> View for Pipeline<T> {
    type V = Seq<StepView<T>>;

    closed spec fn view(&self) -> Seq<StepView<T>> {
        step_views(self.steps@)
    }
}

impl<T> Pipeline<T> {
    /// An empty pipeline.
    pub fn new() -> (res: Self)
        ensures
            res@ == Seq::<StepView<T>>::empty(),
    {
        let res = Pipeline { steps: Vec::new() };
        assert(res@ =~= Seq::<StepView<T>>::empty());
        res
    }

    /// The steps, in order.
    pub fn steps(&self) -> (res: &[PipelineStep<T>])
        ensures
            step_views(res@) == self@,
    {
        self.steps.as_slice()
    }

    /// The steps, to edit their transforms in place.
    pub fn steps_mut_for_params(&mut self) -> (res: &mut [PipelineStep<T>])
        ensures
            step_views(res@) == old(self)@,
            final(self)@ == step_views(final(res)@),
    {
        self.steps.as_mut_slice()
    }

    /// The number of steps.
    pub fn len(&self) -> (res: usize)
        ensures
            res == self@.len(),
    {
        self.steps.len()
    }

    /// Appends an active step with a fresh random identifier and returns
    /// that identifier.
    pub fn add(&mut self, transform: T) -> (id: u128)
        ensures
            final(self)@ == old(self)@.push((id, transform, true)),
            is_random_uuid(id),
    {
        let step = PipelineStep::new(transform);
        let id: u128 = step.id();
        self.steps.push(step);
        assert(self@ =~= old(self)@.push((id, transform, true)));
        id
    }

    /// Removes every step.
    pub fn clear(&mut self)
        ensures
            final(self)@ == Seq::<StepView<T>>::empty(),
    {
        self.steps.clear();
        assert(self@ =~= Seq::<StepView<T>>::empty());
    }

    /// The position of the first step whose identifier is `id`.
    fn index_of(&self, id: u128) -> (res: Option<usize>)
        ensures
            match res {
                Some(i) => is_first_with_id(self@, id, i as int),
                None => !has_id(self@, id),
            },
    {
        let n: usize = self.steps.len();
        let mut i: usize = 0;
        while i < n
            invariant
                n == self@.len(),
                0 <= i <= n,
                forall|j: int| 0 <= j < i ==> #[trigger] self@[j].0 != id,
            decreases n - i,
        {
            if self.steps[i].id() == id {
                return Some(i);
            }
            i = i + 1;
        }
        None
    }

    /// Removes the first step whose identifier is `id` and returns it;
    /// `None`, and no change, when there is none.
    pub fn remove(&mut self, id: u128) -> (res: Option<PipelineStep<T>>)
        ensures
            final(self)@ == without_id(old(self)@, id),
            res is Some <==> has_id(old(self)@, id),
            res matches Some(step) ==> step@ == old(self)@[first_index(old(self)@, id)],
    {
        proof {
            lemma_first_index(self@, id);
        }
        match self.index_of(id) {
            Some(index) => {
                let step = self.steps.remove(index);
                assert(self@ =~= old(self)@.remove(index as int));
                Some(step)
            },
            None => None,
        }
    }

    /// Moves the first step whose identifier is `id` to `target_index`,
    /// counted in the list as it is before the move (clamped to its length).
    /// Returns whether the order changed.
    pub fn move_step(&mut self, id: u128, target_index: usize) -> (res: bool)
        ensures
            (final(self)@, res) == move_step_outcome(old(self)@, id, target_index as int),
    {
        proof {
            lemma_first_index(self@, id);
        }
        let source_index: usize = match self.index_of(id) {
            Some(i) => i,
            None => {
                return false;
            },
        };
        let len: usize = self.steps.len();
        let target_index: usize = if target_index < len {
            target_index
        } else {
            len
        };
        let target_index: usize = if target_index > source_index {
            target_index - 1
        } else {
            target_index
        };
        if source_index == target_index {
            return false;
        }
        let ghost before = self@;
        let step = self.steps.remove(source_index);
        self.steps.insert(target_index, step);
        assert(self@ =~= moved(before, source_index as int, target_index as int));
        true
    }

    /// Sets the `active` flag of the step at `index`.
    fn set_active_at(&mut self, index: usize, active: bool)
        requires
            index < old(self)@.len(),
        ensures
            final(self)@ == with_active(old(self)@, index as int, active),
    {
        let step = element_mut(self.steps.as_mut_slice(), index);
        step.active = active;
        assert(self@ =~= with_active(old(self)@, index as int, active));
    }

    /// Switches the first step whose identifier is `id` on if it was off and
    /// off if it was on. Returns whether there was such a step.
    pub fn toggle(&mut self, id: u128) -> (res: bool)
        ensures
            res == has_id(old(self)@, id),
            final(self)@ == with_flag_switched(old(self)@, id),
    {
        proof {
            lemma_first_index(self@, id);
        }
        match self.index_of(id) {
            Some(index) => {
                let active: bool = self.steps[index].is_active();
                self.set_active_at(index, !active);
                true
            },
            None => false,
        }
    }

    /// Switches the first step whose identifier is `id` on. Returns whether
    /// there was such a step.
    pub fn activate(&mut self, id: u128) -> (res: bool)
        ensures
            res == has_id(old(self)@, id),
            final(self)@ == with_flag_of(old(self)@, id, true),
    {
        proof {
            lemma_first_index(self@, id);
        }
        match self.index_of(id) {
            Some(index) => {
                self.set_active_at(index, true);
                true
            },
            None => false,
        }
    }

    /// Switches the first step whose identifier is `id` off. Returns whether
    /// there was such a step.
    pub fn deactivate(&mut self, id: u128) -> (res: bool)
        ensures
            res == has_id(old(self)@, id),
            final(self)@ == with_flag_of(old(self)@, id, false),
    {
        proof {
            lemma_first_index(self@, id);
        }
        match self.index_of(id) {
            Some(index) => {
                self.set_active_at(index, false);
                true
            },
            None => false,
        }
    }
}

/// `images` is the run of the steps on `images[0]`: each active step turns
/// the image before it into the image after it by a call of `apply`, and each
/// inactive step leaves the image as it is.
pub open spec fn is_run_of<T, F: Fn(&T, GrayImage) -> GrayImage>(
    steps: Seq<StepView<T>>,
    apply: F,
    images: Seq<GrayImage>,
) -> bool {
    &&& images.len() == steps.len() + 1
    &&& forall|k: int|
        0 <= k < steps.len() ==> if steps[k].2 {
            call_ensures(apply, (&steps[k].1, #[trigger] images[k]), images[k + 1])
        } else {
            images[k + 1] == images[k]
        }
}

/// `output` is what running the steps on (a copy of) `input` gives.
pub open spec fn is_result_of_run<T, F: Fn(&T, GrayImage) -> GrayImage>(
    steps: Seq<StepView<T>>,
    apply: F,
    input: GrayImage,
    output: GrayImage,
) -> bool {
    exists|images: Seq<GrayImage>|
        #[trigger] is_run_of(steps, apply, images) && images[0]@ == input@ && images.last()
            == output
}

/// `apply` can be called with the transform of every active step of
/// `steps`, on any image.
pub open spec fn accepts_active_steps<T, F: Fn(&T, GrayImage) -> GrayImage>(
    steps: Seq<StepView<T>>,
    apply: F,
) -> bool {
    forall|k: int, img: GrayImage|
        0 <= k < steps.len() && steps[k].2 ==> #[trigger] apply.requires((&steps[k].1, img))
}

impl<T> Pipeline<T> {
    /// Runs the active steps on `image`, in order, each by a call of `apply`
    /// with its transform; inactive steps are skipped.
    pub fn apply_to<F: Fn(&T, GrayImage) -> GrayImage>(&self, image: GrayImage, apply: F) -> (res:
        GrayImage)
        requires
            accepts_active_steps(self@, apply),
        ensures
            is_result_of_run(self@, apply, image, res),
    {
        let n = self.steps.len();
        let mut current = image;
        let ghost mut images: Seq<GrayImage> = seq![image];
        let mut i: usize = 0;
        while i < n
            invariant
                n == self@.len(),
                0 <= i <= n,
                accepts_active_steps(self@, apply),
                images.len() == i + 1,
                images[0] == image,
                images.last() == current,
                forall|k: int|
                    0 <= k < i ==> if self@[k].2 {
                        call_ensures(apply, (&self@[k].1, #[trigger] images[k]), images[k + 1])
                    } else {
                        images[k + 1] == images[k]
                    },
            decreases n - i,
        {
            let step = &self.steps[i];
            assert(self@[i as int] == step@);
            let next = step.apply_to(current, &apply);
            proof {
                images = images.push(next);
            }
            current = next;
            i = i + 1;
        }
        assert(is_run_of(self@, apply, images));
        current
    }
}

proof fn lemma_inactive_run_keeps_image<T, F: Fn(&T, GrayImage) -> GrayImage>(
    steps: Seq<StepView<T>>,
    apply: F,
    images: Seq<GrayImage>,
    k: int,
)
    requires
        is_run_of(steps, apply, images),
        forall|j: int| 0 <= j < steps.len() ==> !(#[trigger] steps[j].2),
        0 <= k <= steps.len(),
    ensures
        images[k] == images[0],
    decreases k,
{
    if k > 0 {
        lemma_inactive_run_keeps_image(steps, apply, images, k - 1);
        assert(!steps[k - 1].2);
        assert(images[k] == images[k - 1]);
    }
}

/// A pipeline whose steps are all switched off leaves the image as it is.
pub proof fn law_inactive_pipeline_keeps_image<T, F: Fn(&T, GrayImage) -> GrayImage>(
    steps: Seq<StepView<T>>,
    apply: F,
    input: GrayImage,
    output: GrayImage,
)
    requires
        is_result_of_run(steps, apply, input, output),
        forall|j: int| 0 <= j < steps.len() ==> !(#[trigger] steps[j].2),
    ensures
        output@ == input@,
{
    let images = choose|images: Seq<GrayImage>|
        #[trigger] is_run_of(steps, apply, images) && images[0]@ == input@ && images.last()
            == output;
    lemma_inactive_run_keeps_image(steps, apply, images, steps.len() as int);
}

impl<T> Default for Pipeline<T> {
    /// An empty pipeline.
    fn default() -> (res: Self)
        ensures
            res@ == Seq::<StepView<T>>::empty(),
    {
        Pipeline::new()
    }
}

/// Steps with the same identifiers at the same positions agree on whether an
/// identifier occurs and on where it first occurs.
proof fn lemma_same_ids_same_first<T>(s: Seq<StepView<T>>, t: Seq<StepView<T>>, id: u128)
    requires
        s.len() == t.len(),
        forall|j: int| 0 <= j < s.len() ==> #[trigger] s[j].0 == t[j].0,
    ensures
        has_id(s, id) == has_id(t, id),
        has_id(s, id) ==> first_index(s, id) == first_index(t, id),
{
    lemma_first_index(s, id);
    lemma_first_index(t, id);
    if has_id(s, id) {
        let j: int = choose|j: int| 0 <= j < s.len() && #[trigger] s[j].0 == id;
        assert(t[j].0 == id);
        let i: int = first_index(s, id);
        assert forall|k: int| 0 <= k < i implies #[trigger] t[k].0 != id by {
            assert(s[k].0 != id);
        }
        assert(is_first_with_id(t, id, i));
    }
    if has_id(t, id) {
        let j: int = choose|j: int| 0 <= j < t.len() && #[trigger] t[j].0 == id;
        assert(s[j].0 == id);
    }
}

/// Whether at most one step of `steps` has the identifier `id`.
pub open spec fn occurs_at_most_once<T>(steps: Seq<StepView<T>>, id: u128) -> bool {
    forall|j: int, k: int|
        0 <= j < k < steps.len() ==> !(#[trigger] steps[j].0 == id && #[trigger] steps[k].0 == id)
}

/// Moving a step changes the order only: the pipeline holds the same steps,
/// as many times each.
pub proof fn law_move_is_a_permutation<T>(s: Seq<StepView<T>>, id: u128, target: int)
    requires
        0 <= target,
    ensures
        move_step_outcome(s, id, target).0.to_multiset() == s.to_multiset(),
{
    broadcast use vstd::seq_lib::group_to_multiset_ensures;

    if has_id(s, id) {
        lemma_first_index(s, id);
        let from: int = first_index(s, id);
        let to: int = move_destination(s.len() as int, from, target);
        if to != from {
            let r = s.remove(from);
            vstd::seq_lib::to_multiset_remove(s, from);
            vstd::seq_lib::to_multiset_insert(r, to, s[from]);
            assert(s.to_multiset().remove(s[from]).insert(s[from]) =~= s.to_multiset());
        }
    }
}

/// A moved step lands where `move_destination` says, and the pipeline keeps
/// its length.
pub proof fn law_move_lands_at_destination<T>(s: Seq<StepView<T>>, id: u128, target: int)
    requires
        has_id(s, id),
        0 <= target,
    ensures
        move_step_outcome(s, id, target).0.len() == s.len(),
        move_step_outcome(s, id, target).0[move_destination(
            s.len() as int,
            first_index(s, id),
            target,
        )] == s[first_index(s, id)],
{
    lemma_first_index(s, id);
}

/// After a step whose identifier occurs once has been moved, asking
/// `move_step` to take it back to its old position (counted as `move_step`
/// counts: one further when that position lies after the step's new one)
/// gives the pipeline back.
pub proof fn law_move_back_restores<T>(s: Seq<StepView<T>>, id: u128, target: int)
    requires
        occurs_at_most_once(s, id),
        0 <= target,
    ensures
        ({
            let source: int = first_index(s, id);
            let dest: int = move_destination(s.len() as int, source, target);
            let back: int = if source > dest {
                source + 1
            } else {
                source
            };
            move_step_outcome(s, id, target).1 ==> move_step_outcome(
                move_step_outcome(s, id, target).0,
                id,
                back,
            ) == (s, true)
        }),
{
    lemma_first_index(s, id);
    if has_id(s, id) {
        let source: int = first_index(s, id);
        let dest: int = move_destination(s.len() as int, source, target);
        if dest != source {
            let s2 = moved(s, source, dest);
            let r = s.remove(source);
            assert(s2[dest] == s[source]);
            assert forall|j: int| 0 <= j < dest implies #[trigger] s2[j].0 != id by {
                assert(s2[j] == r[j]);
                if j < source {
                    assert(r[j] == s[j]);
                    if s[j].0 == id {
                        assert(s[j].0 == id && s[source].0 == id);
                    }
                } else {
                    assert(r[j] == s[j + 1]);
                    if s[j + 1].0 == id {
                        assert(s[source].0 == id && s[j + 1].0 == id);
                    }
                }
            }
            assert(is_first_with_id(s2, id, dest));
            lemma_first_index(s2, id);
            assert(has_id(s2, id));
            assert(moved(s2, dest, source) =~= s);
        }
    }
}

/// Switching a step twice gives the pipeline back.
pub proof fn law_toggle_twice_restores<T>(s: Seq<StepView<T>>, id: u128)
    ensures
        with_flag_switched(with_flag_switched(s, id), id) == s,
{
    lemma_first_index(s, id);
    if has_id(s, id) {
        let t = with_flag_switched(s, id);
        lemma_same_ids_same_first(s, t, id);
        assert(with_flag_switched(t, id) =~= s);
    }
}

/// Switching a step on (or off) a second time changes nothing more.
pub proof fn law_set_flag_is_idempotent<T>(s: Seq<StepView<T>>, id: u128, active: bool)
    ensures
        with_flag_of(with_flag_of(s, id, active), id, active) == with_flag_of(s, id, active),
{
    lemma_first_index(s, id);
    if has_id(s, id) {
        let t = with_flag_of(s, id, active);
        lemma_same_ids_same_first(s, t, id);
        assert(with_flag_of(t, id, active) =~= t);
    }
}

/// Switching a step off and then on again gives the pipeline back when the
/// step was on (or is not in the pipeline).
pub proof fn law_deactivate_then_activate_restores<T>(s: Seq<StepView<T>>, id: u128)
    requires
        has_id(s, id) ==> s[first_index(s, id)].2,
    ensures
        with_flag_of(with_flag_of(s, id, false), id, true) == s,
{
    lemma_first_index(s, id);
    if has_id(s, id) {
        let t = with_flag_of(s, id, false);
        lemma_same_ids_same_first(s, t, id);
        assert(with_flag_of(t, id, true) =~= s);
    }
}

/// Switching steps on and off keeps every step's identifier and transform,
/// in order.
pub proof fn law_flags_keep_steps<T>(s: Seq<StepView<T>>, id: u128, active: bool)
    ensures
        with_flag_of(s, id, active).len() == s.len(),
        with_flag_switched(s, id).len() == s.len(),
        forall|j: int|
            0 <= j < s.len() ==> #[trigger] with_flag_of(s, id, active)[j].0 == s[j].0
                && with_flag_of(s, id, active)[j].1 == s[j].1,
        forall|j: int|
            0 <= j < s.len() ==> #[trigger] with_flag_switched(s, id)[j].0 == s[j].0
                && with_flag_switched(s, id)[j].1 == s[j].1,
{
    lemma_first_index(s, id);
}

/// Removing the step that `add` has just appended, under the identifier it
/// returned, gives the pipeline back when no earlier step had that identifier.
pub proof fn law_remove_undoes_add<T>(s: Seq<StepView<T>>, id: u128, transform: T)
    requires
        !has_id(s, id),
    ensures
        without_id(s.push((id, transform, true)), id) == s,
{
    let t = s.push((id, transform, true));
    assert forall|j: int| 0 <= j < s.len() implies #[trigger] t[j].0 != id by {
        assert(t[j] == s[j]);
        if s[j].0 == id {
            assert(has_id(s, id));
        }
    }
    assert(is_first_with_id(t, id, s.len() as int));
    lemma_first_index(t, id);
    assert(t.remove(s.len() as int) =~= s);
}

proof fn lemma_run_without_inactive_step<T, F: Fn(&T, GrayImage) -> GrayImage>(
    s: Seq<StepView<T>>,
    i: int,
    apply: F,
    images: Seq<GrayImage>,
)
    requires
        0 <= i < s.len(),
        is_run_of(with_active(s, i, false), apply, images),
    ensures
        is_run_of(s.remove(i), apply, images.remove(i + 1)),
        images.remove(i + 1)[0] == images[0],
        images.remove(i + 1).last() == images.last(),
{
    let a = with_active(s, i, false);
    let b = s.remove(i);
    let im2 = images.remove(i + 1);
    assert(images[i + 1] == images[i]) by {
        assert(!a[i].2);
    }
    assert forall|k: int| 0 <= k < b.len() implies if b[k].2 {
        call_ensures(apply, (&b[k].1, #[trigger] im2[k]), im2[k + 1])
    } else {
        im2[k + 1] == im2[k]
    } by {
        if k < i {
            assert(b[k] == a[k]);
            assert(im2[k] == images[k]);
            assert(im2[k + 1] == images[k + 1]);
            assert(a[k].2 ==> call_ensures(apply, (&a[k].1, images[k]), images[k + 1]));
        } else {
            assert(b[k] == a[k + 1]);
            assert(im2[k + 1] == images[k + 2]);
            assert(im2[k] == images[k + 1]);
            assert(a[k + 1].2 ==> call_ensures(
                apply,
                (&a[k + 1].1, images[k + 1]),
                images[k + 2],
            ));
            assert(!a[k + 1].2 ==> images[k + 2] == images[k + 1]);
        }
    }
    if i + 1 == s.len() {
        assert(!a[i].2);
    }
}

proof fn lemma_run_with_inactive_step<T, F: Fn(&T, GrayImage) -> GrayImage>(
    s: Seq<StepView<T>>,
    i: int,
    apply: F,
    images: Seq<GrayImage>,
)
    requires
        0 <= i < s.len(),
        is_run_of(s.remove(i), apply, images),
    ensures
        is_run_of(with_active(s, i, false), apply, images.insert(i + 1, images[i])),
        images.insert(i + 1, images[i])[0] == images[0],
        images.insert(i + 1, images[i]).last() == images.last(),
{
    let a = with_active(s, i, false);
    let b = s.remove(i);
    let im2 = images.insert(i + 1, images[i]);
    assert forall|k: int| 0 <= k < a.len() implies if a[k].2 {
        call_ensures(apply, (&a[k].1, #[trigger] im2[k]), im2[k + 1])
    } else {
        im2[k + 1] == im2[k]
    } by {
        if k < i {
            assert(a[k] == b[k]);
            assert(im2[k] == images[k]);
            assert(im2[k + 1] == images[k + 1]);
            assert(b[k].2 ==> call_ensures(apply, (&b[k].1, images[k]), images[k + 1]));
        } else if k == i {
            assert(!a[k].2);
        } else {
            assert(a[k] == b[k - 1]);
            assert(im2[k] == images[k - 1]);
            assert(im2[k + 1] == images[k]);
            assert(b[k - 1].2 ==> call_ensures(apply, (&b[k - 1].1, images[k - 1]), images[k]));
            assert(!b[k - 1].2 ==> images[k] == images[k - 1]);
        }
    }
}

/// Running a pipeline in which a step is switched off gives what running it
/// without that step gives.
pub proof fn law_switched_off_step_is_skipped<T, F: Fn(&T, GrayImage) -> GrayImage>(
    s: Seq<StepView<T>>,
    id: u128,
    apply: F,
    input: GrayImage,
    output: GrayImage,
)
    ensures
        is_result_of_run(with_flag_of(s, id, false), apply, input, output) <==> is_result_of_run(
            without_id(s, id),
            apply,
            input,
            output,
        ),
{
    lemma_first_index(s, id);
    if has_id(s, id) {
        let i: int = first_index(s, id);
        if is_result_of_run(with_flag_of(s, id, false), apply, input, output) {
            let images = choose|images: Seq<GrayImage>|
                #[trigger] is_run_of(with_active(s, i, false), apply, images) && images[0]@
                    == input@ && images.last() == output;
            lemma_run_without_inactive_step(s, i, apply, images);
            assert(is_run_of(s.remove(i), apply, images.remove(i + 1)));
        }
        if is_result_of_run(without_id(s, id), apply, input, output) {
            let images = choose|images: Seq<GrayImage>|
                #[trigger] is_run_of(s.remove(i), apply, images) && images[0]@ == input@
                    && images.last() == output;
            lemma_run_with_inactive_step(s, i, apply, images);
            assert(is_run_of(with_active(s, i, false), apply, images.insert(i + 1, images[i])));
        }
    }
}

/// A step is moved as `move_step` is asked: when the step with `id` first
/// stands at `i` and the target `target` (clamped to the length, and counted
/// without the step itself when it lies after it) is another place `f`, the
/// step is taken out and put back at `f`, and the answer is `true`;
/// otherwise nothing changes and the answer is `false`.
pub proof fn law_move_step_moves_the_step<T>(s: Seq<StepView<T>>, id: u128, i: int, target: int)
    requires
        0 <= i < s.len(),
        s[i].0 == id,
        forall|j: int| 0 <= j < i ==> s[j].0 != id,
        0 <= target,
    ensures
        ({
            let t: int = if target < s.len() {
                target
            } else {
                s.len() as int
            };
            let f: int = if t > i {
                t - 1
            } else {
                t
            };
            move_step_outcome(s, id, target) == if f == i {
                (s, false)
            } else {
                (s.remove(i).insert(f, s[i]), true)
            }
        }),
{
    assert(is_first_with_id(s, id, i));
    lemma_first_index(s, id);
}

/// Asking to move a step whose identifier is not in the pipeline changes
/// nothing and answers `false`.
pub proof fn law_move_step_of_absent_id<T>(s: Seq<StepView<T>>, id: u128, target: int)
    requires
        forall|j: int| 0 <= j < s.len() ==> s[j].0 != id,
    ensures
        move_step_outcome(s, id, target) == (s, false),
{
}

/// Switching the step with `id` negates the flag of the first step with that
/// identifier and changes nothing else.
pub proof fn law_switch_negates_the_flag<T>(s: Seq<StepView<T>>, id: u128, i: int)
    requires
        0 <= i < s.len(),
        s[i].0 == id,
        forall|j: int| 0 <= j < i ==> s[j].0 != id,
    ensures
        with_flag_switched(s, id) == s.update(i, (s[i].0, s[i].1, !s[i].2)),
        with_flag_switched(s, id)[i].2 == !s[i].2,
{
    assert(is_first_with_id(s, id, i));
    lemma_first_index(s, id);
}

/// Switching a step on or off sets the flag of the first step with that
/// identifier and changes nothing else.
pub proof fn law_set_flag_sets_the_flag<T>(s: Seq<StepView<T>>, id: u128, i: int, active: bool)
    requires
        0 <= i < s.len(),
        s[i].0 == id,
        forall|j: int| 0 <= j < i ==> s[j].0 != id,
    ensures
        with_flag_of(s, id, active) == s.update(i, (s[i].0, s[i].1, active)),
{
    assert(is_first_with_id(s, id, i));
    lemma_first_index(s, id);
}

/// Removing the step with `id` takes out the first step with that
/// identifier and keeps the others in order.
pub proof fn law_remove_takes_out_the_first<T>(s: Seq<StepView<T>>, id: u128, i: int)
    requires
        0 <= i < s.len(),
        s[i].0 == id,
        forall|j: int| 0 <= j < i ==> s[j].0 != id,
    ensures
        without_id(s, id) == s.remove(i),
{
    assert(is_first_with_id(s, id, i));
    lemma_first_index(s, id);
}

/// An identifier that is not in the pipeline leaves it as it is, whether
/// asked to switch, set or remove.
pub proof fn law_absent_id_changes_nothing<T>(s: Seq<StepView<T>>, id: u128, active: bool)
    requires
        forall|j: int| 0 <= j < s.len() ==> s[j].0 != id,
    ensures
        with_flag_switched(s, id) == s,
        with_flag_of(s, id, active) == s,
        without_id(s, id) == s,
{
}

/// A pipeline of one active step gives what `apply` makes of the image with
/// that step's transform.
pub proof fn law_single_active_step_applies_its_transform<T, F: Fn(&T, GrayImage) -> GrayImage>(
    id: u128,
    transform: T,
    apply: F,
    input: GrayImage,
    output: GrayImage,
)
    requires
        is_result_of_run(seq![(id, transform, true)], apply, input, output),
    ensures
        exists|x: GrayImage| x@ == input@ && call_ensures(apply, (&transform, x), output),
{
    let steps = seq![(id, transform, true)];
    let images = choose|images: Seq<GrayImage>|
        #[trigger] is_run_of(steps, apply, images) && images[0]@ == input@ && images.last()
            == output;
    assert(steps[0].2);
    assert(call_ensures(apply, (&steps[0].1, images[0]), images[1]));
}

} // verus!
