//! A pipeline: stages in a row, each fed with what the one before it made.

use crate::model::types::{ItemView, PipelineItem};
use crate::model::vecs::push_last;
use crate::pipeline::stages::Stage;
use vstd::prelude::*;

verus! {

/// An ordered composition of stages under an id. The pipeline owns its
/// stages.
pub struct Pipeline {
    id: String,
    stages: Vec<Box<dyn Stage>>,
}

/// The model of a [`Pipeline`].
pub struct PipelineView {
    pub id: Seq<char>,
    pub stages: Seq<Box<dyn Stage>>,
}

impl View for Pipeline {
    type V = PipelineView;

    closed spec fn view(&self) -> PipelineView {
        PipelineView { id: self.id@, stages: self.stages@ }
    }
}

/// Whether `parts` holds, for each of `items` in turn, something that `stage`
/// may make of it.
pub open spec fn yields_each<S: Stage + ?Sized>(
    stage: &S,
    items: Seq<ItemView>,
    parts: Seq<Seq<ItemView>>,
) -> bool {
    &&& parts.len() == items.len()
    &&& forall|i: int| 0 <= i < items.len() ==> stage.yields(items[i], #[trigger] parts[i])
}

/// Whether `out` is what `stage` may make of `items`: what it makes of the
/// first, then what it makes of the second, and so on to the last.
pub open spec fn stage_maps<S: Stage + ?Sized>(
    stage: &S,
    items: Seq<ItemView>,
    out: Seq<ItemView>,
) -> bool {
    exists|parts: Seq<Seq<ItemView>>| #[trigger]
        yields_each(stage, items, parts) && out == parts.flatten()
}

/// Whether `out` is what `stages` may make of `input`: the first stage works
/// on the input alone, and each later one on all that the stage before it
/// made, in that order. Where there is no stage, the input itself comes out.
pub open spec fn pipeline_yields(
    stages: Seq<Box<dyn Stage>>,
    input: ItemView,
    out: Seq<ItemView>,
) -> bool
    decreases stages.len(),
{
    if stages.len() == 0 {
        out == seq![input]
    } else {
        exists|fed: Seq<ItemView>|
            pipeline_yields(stages.drop_last(), input, fed) && #[trigger] stage_maps(
                &*stages.last(),
                fed,
                out,
            )
    }
}

/// A pipeline without stages makes of an input the input itself, and
/// nothing else.
pub proof fn lemma_no_stage_keeps_input(input: ItemView, out: Seq<ItemView>)
    ensures
        pipeline_yields(Seq::<Box<dyn Stage>>::empty(), input, out) <==> out == seq![input],
{
}

/// What a stage makes of a single item, taken as a row of one, is what it
/// makes of the item.
pub proof fn lemma_stage_maps_one<S: Stage + ?Sized>(stage: &S, item: ItemView, out: Seq<ItemView>)
    ensures
        stage_maps(stage, seq![item], out) <==> stage.yields(item, out),
{
    if stage_maps(stage, seq![item], out) {
        let parts = choose|parts: Seq<Seq<ItemView>>| #[trigger]
            yields_each(stage, seq![item], parts) && out == parts.flatten();
        parts.lemma_flatten_one_element();
        assert(parts.first() == parts[0]);
        assert(stage.yields(seq![item][0], parts[0]));
    }
    if stage.yields(item, out) {
        let parts = seq![out];
        parts.lemma_flatten_one_element();
        assert(stage.yields(seq![item][0], parts[0]));
        assert(yields_each(stage, seq![item], parts));
    }
}

/// A stage keeps the order of what it is fed: what it makes of one row of
/// items, followed by what it makes of another, is what it makes of the two
/// rows in a row.
pub proof fn lemma_stage_maps_in_order<S: Stage + ?Sized>(
    stage: &S,
    first: Seq<ItemView>,
    second: Seq<ItemView>,
    of_first: Seq<ItemView>,
    of_second: Seq<ItemView>,
)
    requires
        stage_maps(stage, first, of_first),
        stage_maps(stage, second, of_second),
    ensures
        stage_maps(stage, first + second, of_first + of_second),
{
    let a = choose|parts: Seq<Seq<ItemView>>| #[trigger]
        yields_each(stage, first, parts) && of_first == parts.flatten();
    let b = choose|parts: Seq<Seq<ItemView>>| #[trigger]
        yields_each(stage, second, parts) && of_second == parts.flatten();
    let parts = a + b;
    assert forall|i: int| 0 <= i < (first + second).len() implies stage.yields(
        (first + second)[i],
        #[trigger] parts[i],
    ) by {
        if i < first.len() {
            assert(parts[i] == a[i]);
        } else {
            assert(parts[i] == b[i - first.len()]);
        }
    }
    vstd::seq_lib::lemma_flatten_concat(a, b);
    assert(yields_each(stage, first + second, parts));
}

/// And what a stage makes of two rows of items in a row falls into what it
/// makes of the one, followed by what it makes of the other: no item of the
/// second row shows in what comes out before the last item made of the
/// first.
pub proof fn lemma_stage_maps_by_parts<S: Stage + ?Sized>(
    stage: &S,
    first: Seq<ItemView>,
    second: Seq<ItemView>,
    out: Seq<ItemView>,
)
    requires
        stage_maps(stage, first + second, out),
    ensures
        exists|of_first: Seq<ItemView>, of_second: Seq<ItemView>|
            #![trigger stage_maps(stage, first, of_first), stage_maps(stage, second, of_second)]
            stage_maps(stage, first, of_first) && stage_maps(stage, second, of_second) && out
                == of_first + of_second,
{
    let parts = choose|parts: Seq<Seq<ItemView>>| #[trigger]
        yields_each(stage, first + second, parts) && out == parts.flatten();
    let n = first.len() as int;
    let a = parts.take(n);
    let b = parts.skip(n);
    assert forall|i: int| 0 <= i < first.len() implies stage.yields(first[i], #[trigger] a[i]) by {
        assert((first + second)[i] == first[i]);
        assert(stage.yields((first + second)[i], parts[i]));
    }
    assert forall|i: int| 0 <= i < second.len() implies stage.yields(second[i], #[trigger] b[i]) by {
        assert((first + second)[i + n] == second[i]);
        assert(stage.yields((first + second)[i + n], parts[i + n]));
    }
    assert(parts =~= a + b);
    vstd::seq_lib::lemma_flatten_concat(a, b);
    assert(yields_each(stage, first, a));
    assert(yields_each(stage, second, b));
    assert(stage_maps(stage, first, a.flatten()));
    assert(stage_maps(stage, second, b.flatten()));
}

/// One more stage at the end works on all that the stages before it made.
pub proof fn lemma_one_more_stage(
    stages: Seq<Box<dyn Stage>>,
    input: ItemView,
    fed: Seq<ItemView>,
    out: Seq<ItemView>,
)
    requires
        stages.len() > 0,
        pipeline_yields(stages.drop_last(), input, fed),
        stage_maps(&*stages.last(), fed, out),
    ensures
        pipeline_yields(stages, input, out),
{
}

impl Pipeline {
    /// A pipeline without stages.
    pub fn new(id: &str) -> (pipeline: Self)
        ensures
            pipeline@.id == id@,
            pipeline@.stages == Seq::<Box<dyn Stage>>::empty(),
    {
        Pipeline { id: id.to_owned(), stages: Vec::new() }
    }

    pub fn id(&self) -> (id: &str)
        ensures
            id@ == self@.id,
    {
        self.id.as_str()
    }

    /// Appends `stage` as the last one.
    pub fn push_stage(&mut self, stage: Box<dyn Stage>)
        ensures
            final(self)@.id == old(self)@.id,
            final(self)@.stages.len() == old(self)@.stages.len() + 1,
            final(self)@.stages.drop_last() == old(self)@.stages,
            final(self)@.stages.last() == stage,
    {
        push_last(stage, &mut self.stages);
    }

    /// Runs `input` through the stages in the order in which they were
    /// pushed.
    pub fn process(&self, input: PipelineItem) -> (out: Vec<PipelineItem>)
        ensures
            pipeline_yields(self@.stages, input@, out.deep_view()),
    {
        let mut items: Vec<PipelineItem> = vec![input];
        let mut k: usize = 0;
        proof {
            assert(items.deep_view() =~= seq![input@]);
            assert(self.stages@.take(0).len() == 0);
        }
        while k < self.stages.len()
            invariant
                k <= self.stages.len(),
                pipeline_yields(self.stages@.take(k as int), input@, items.deep_view()),
            decreases self.stages.len() - k,
        {
            let stage = &self.stages[k];
            let ghost fed = items.deep_view();
            let ghost mut parts: Seq<Seq<ItemView>> = Seq::empty();
            let mut next: Vec<PipelineItem> = Vec::new();
            assert(next.deep_view() =~= parts.flatten());
            for item in it: items
                invariant
                    it.seq().len() == fed.len(),
                    forall|i: int| 0 <= i < fed.len() ==> (#[trigger] it.seq()[i])@ == fed[i],
                    parts.len() == it.index(),
                    forall|i: int|
                        0 <= i < parts.len() ==> stage.yields(fed[i], #[trigger] parts[i]),
                    next.deep_view() == parts.flatten(),
            {
                let mut made = stage.process(item);
                proof {
                    parts.lemma_flatten_push(made.deep_view());
                    parts = parts.push(made.deep_view());
                }
                let ghost before = next.deep_view();
                let ghost part = made.deep_view();
                next.append(&mut made);
                assert(next.deep_view() =~= before + part);
            }
            items = next;
            k = k + 1;
            proof {
                let stages = self.stages@.take(k as int);
                assert(stages.drop_last() =~= self.stages@.take(k - 1));
                assert(stages.last() == *stage);
                assert(yields_each(&**stage, fed, parts));
                assert(stage_maps(&*stages.last(), fed, items.deep_view()));
            }
        }
        assert(self.stages@.take(k as int) =~= self.stages@);
        items
    }
}

} // verus!
