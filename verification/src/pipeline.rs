use vstd::prelude::*;

verus! {

use crate::library::AudioLibrary;

/// The settings one pipeline's stages share: how many samples a filter sees
/// at once, and how many samples may sit between two stages.
#[derive(Clone, Copy, Debug, PartialEq, Eq, Structural)]
pub struct TransformContext {
    pub window_size: usize,
    pub fitting_buffer: usize,
}

/// A usable context has room for at least one sample in a window and in a
/// queue.
pub open spec fn context_wf(ctx: TransformContext) -> bool {
    &&& ctx.window_size >= 1
    &&& ctx.fitting_buffer >= 1
}

/// A bounded FIFO queue of interleaved samples: the channel between two
/// adjacent pipeline stages. A sender blocks while the queue is full — that
/// is the pipeline's backpressure — so pushing demands room.
pub struct BoundedQueue {
    items: Vec<u32>,
    capacity: usize,
}

impl BoundedQueue {
    /// The queued samples: sent by the upstream stage, not yet received
    /// downstream, oldest first.
    pub closed spec fn items_spec(&self) -> Seq<u32> {
        self.items@
    }

    /// The queue's fixed capacity.
    pub closed spec fn capacity_spec(&self) -> int {
        self.capacity as int
    }

    /// A queue never holds more than its capacity.
    pub open spec fn wf(&self) -> bool {
        self.items_spec().len() <= self.capacity_spec()
    }

    pub fn new(capacity: usize) -> (r: Self)
        requires
            capacity >= 1,
        ensures
            r.wf(),
            r.items_spec() =~= Seq::<u32>::empty(),
            r.capacity_spec() == capacity,
    {
        BoundedQueue { items: Vec::new(), capacity }
    }

    pub fn len(&self) -> (r: usize)
        ensures
            r == self.items_spec().len(),
    {
        self.items.len()
    }

    pub fn capacity(&self) -> (r: usize)
        ensures
            r == self.capacity_spec(),
    {
        self.capacity
    }

    pub fn is_empty(&self) -> (r: bool)
        ensures
            r == (self.items_spec().len() == 0),
    {
        self.items.len() == 0
    }

    pub fn is_full(&self) -> (r: bool)
        ensures
            r == (self.items_spec().len() >= self.capacity_spec()),
    {
        self.items.len() >= self.capacity
    }

    /// Sends one sample. The sender must have observed room: with a full
    /// queue it blocks instead, which this model expresses as a demand on
    /// the caller.
    pub fn push(&mut self, sample: u32)
        requires
            old(self).wf(),
            old(self).items_spec().len() < old(self).capacity_spec(),
        ensures
            final(self).wf(),
            final(self).items_spec() == old(self).items_spec().push(sample),
            final(self).capacity_spec() == old(self).capacity_spec(),
    {
        self.items.push(sample);
    }

    /// Receives the oldest sample without blocking: `None` reports a
    /// currently empty queue.
    pub fn pop_front(&mut self) -> (r: Option<u32>)
        requires
            old(self).wf(),
        ensures
            final(self).wf(),
            final(self).capacity_spec() == old(self).capacity_spec(),
            old(self).items_spec().len() == 0 ==> r is None && final(self).items_spec()
                == old(self).items_spec(),
            old(self).items_spec().len() > 0 ==> r == Some(old(self).items_spec()[0])
                && final(self).items_spec() == old(self).items_spec().skip(1),
    {
        if self.items.len() == 0 {
            return None;
        }
        let sample = self.items.remove(0);
        proof {
            assert(self.items@ =~= old(self).items_spec().skip(1));
        }
        Some(sample)
    }
}

/// Backpressure bound: between two stages at most `capacity` samples are in
/// flight — sent upstream but not yet received downstream — at any
/// observation point.
pub proof fn lemma_backpressure_bound(q: BoundedQueue)
    requires
        q.wf(),
    ensures
        q.items_spec().len() <= q.capacity_spec(),
{
}

/// The pure transforms a filter stage can apply to a window.
#[derive(Clone, Copy, Debug, PartialEq, Eq, Structural)]
pub enum FilterKind {
    /// Leaves every sample as it is.
    Identity,
    /// Replaces every sample with silence.
    Silence,
}

/// What a filter makes of one sample.
pub open spec fn filter_sample(kind: FilterKind, sample: u32) -> u32 {
    match kind {
        FilterKind::Identity => sample,
        FilterKind::Silence => 0u32,
    }
}

/// One unit of work in a pipeline: a pure windowed filter, or an explicit
/// queue-to-queue forwarder.
#[derive(Clone, Copy, Debug, PartialEq, Eq, Structural)]
pub enum Stage {
    Filter(FilterKind),
    Pipe,
}

/// What one stage makes of one sample (a pipe forwards it untouched).
pub open spec fn stage_sample(stage: Stage, sample: u32) -> u32 {
    match stage {
        Stage::Filter(kind) => filter_sample(kind, sample),
        Stage::Pipe => sample,
    }
}

/// What one stage makes of a sample stream: samples one for one, in order —
/// a stage never reorders, drops or invents samples, however it windows them.
pub open spec fn stage_output(stage: Stage, input: Seq<u32>) -> Seq<u32> {
    input.map_values(|s: u32| stage_sample(stage, s))
}

/// What a whole chain of stages makes of a stream, first stage first.
pub open spec fn pipeline_output(stages: Seq<Stage>, input: Seq<u32>) -> Seq<u32>
    decreases stages.len(),
{
    if stages.len() == 0 {
        input
    } else {
        pipeline_output(stages.skip(1), stage_output(stages[0], input))
    }
}

/// Pipeline identity law: a single-stage pipeline whose filter is the
/// identity transform returns every input sequence exactly, in order and in
/// count — for every window size, since windowing never shows in the output.
pub proof fn lemma_pipeline_identity(input: Seq<u32>)
    ensures
        pipeline_output(seq![Stage::Filter(FilterKind::Identity)], input) == input,
{
    let stages = seq![Stage::Filter(FilterKind::Identity)];
    assert(stages.skip(1) =~= Seq::<Stage>::empty());
    assert(stage_output(stages[0], input) =~= input);
    assert(pipeline_output(Seq::<Stage>::empty(), input) == input);
}

/// A pipeline never changes how many samples flow through it.
pub proof fn lemma_pipeline_len(stages: Seq<Stage>, input: Seq<u32>)
    ensures
        pipeline_output(stages, input).len() == input.len(),
    decreases stages.len(),
{
    if stages.len() > 0 {
        lemma_pipeline_len(stages.skip(1), stage_output(stages[0], input));
    }
}

/// A chain transforms a concatenation piecewise: feeding a stream through in
/// batches changes nothing about what comes out.
pub proof fn lemma_pipeline_concat(stages: Seq<Stage>, a: Seq<u32>, b: Seq<u32>)
    ensures
        pipeline_output(stages, a + b) == pipeline_output(stages, a) + pipeline_output(stages, b),
    decreases stages.len(),
{
    if stages.len() == 0 {
        assert(pipeline_output(stages, a + b) =~= pipeline_output(stages, a) + pipeline_output(
            stages,
            b,
        ));
    } else {
        assert(stage_output(stages[0], a + b) =~= stage_output(stages[0], a) + stage_output(
            stages[0],
            b,
        ));
        lemma_pipeline_concat(stages.skip(1), stage_output(stages[0], a), stage_output(
            stages[0],
            b,
        ));
    }
}

/// Applies a filter to a window of samples, in place.
pub fn apply_filter(kind: FilterKind, window: &mut Vec<u32>)
    ensures
        final(window)@ == old(window)@.map_values(|s: u32| filter_sample(kind, s)),
{
    let ghost orig = window@;
    let mut i: usize = 0;
    while i < window.len()
        invariant
            i <= orig.len(),
            window@.len() == orig.len(),
            forall|m: int| 0 <= m < i ==> window@[m] == filter_sample(kind, orig[m]),
            forall|m: int| i <= m < orig.len() ==> window@[m] == orig[m],
        decreases orig.len() - i,
    {
        let s = window[i];
        let out = match kind {
            FilterKind::Identity => s,
            FilterKind::Silence => 0u32,
        };
        window[i] = out;
        i = i + 1;
    }
    proof {
        assert(window@ =~= orig.map_values(|s: u32| filter_sample(kind, s)));
    }
}

/// Runs one stage as a worker between two queues, as the filter-as-pipe
/// adapter does: fill a window with up to `window_size` samples by
/// non-blocking receives, treat a window cut short by an empty queue as
/// complete, transform it, and forward every sample in its original order.
/// The input queue standing empty is upstream closure here: the worker runs
/// until its input is drained.
fn run_stage(
    stage: &Stage,
    ctx: &TransformContext,
    input_q: &mut BoundedQueue,
    output_q: &mut BoundedQueue,
)
    requires
        context_wf(*ctx),
        old(input_q).wf(),
        old(output_q).wf(),
        old(output_q).items_spec().len() == 0,
        old(input_q).items_spec().len() <= old(output_q).capacity_spec(),
    ensures
        final(input_q).wf(),
        final(output_q).wf(),
        final(input_q).items_spec().len() == 0,
        final(input_q).capacity_spec() == old(input_q).capacity_spec(),
        final(output_q).capacity_spec() == old(output_q).capacity_spec(),
        final(output_q).items_spec() == stage_output(*stage, old(input_q).items_spec()),
{
    let ghost orig = input_q.items_spec();
    loop
        invariant
            context_wf(*ctx),
            input_q.wf(),
            output_q.wf(),
            input_q.capacity_spec() == old(input_q).capacity_spec(),
            output_q.capacity_spec() == old(output_q).capacity_spec(),
            orig == old(input_q).items_spec(),
            orig.len() <= output_q.capacity_spec(),
            output_q.items_spec().len() + input_q.items_spec().len() == orig.len(),
            input_q.items_spec() == orig.skip(
                output_q.items_spec().len() as int,
            ),
            output_q.items_spec() == stage_output(
                *stage,
                orig.take(output_q.items_spec().len() as int),
            ),
        decreases input_q.items_spec().len(),
    {
        let ghost done_before = output_q.items_spec().len() as int;
        if input_q.is_empty() {
            proof {
                assert(orig.take(orig.len() as int) =~= orig);
            }
            return ;
        }
        let mut window: Vec<u32> = Vec::new();
        let window_size = match stage {
            Stage::Filter(_) => ctx.window_size,
            Stage::Pipe => 1,
        };
        let first = match input_q.pop_front() {
            Some(s) => s,
            None => {
                proof {
                    assert(false);
                }
                0
            },
        };
        window.push(first);
        proof {
            assert(orig.skip(done_before) =~= window@ + input_q.items_spec());
        }
        while window.len() < window_size
            invariant
                input_q.wf(),
                input_q.capacity_spec() == old(input_q).capacity_spec(),
                1 <= window@.len() <= window_size,
                orig.skip(done_before) == window@ + input_q.items_spec(),
            decreases window_size - window@.len(),
        {
            match input_q.pop_front() {
                Some(s) => {
                    window.push(s);
                    proof {
                        assert(orig.skip(done_before) =~= window@ + input_q.items_spec());
                    }
                },
                None => {
                    break ;
                },
            }
        }
        let ghost raw = window@;
        let ghost got = window@.len() as int;
        let ghost inq = input_q.items_spec();
        proof {
            assert(orig.skip(done_before) == raw + inq);
        }
        let kind_opt = match stage {
            Stage::Filter(kind) => Some(*kind),
            Stage::Pipe => None,
        };
        match kind_opt {
            Some(kind) => {
                apply_filter(kind, &mut window);
            },
            None => {},
        }
        proof {
            assert(raw =~= orig.skip(done_before).take(got));
            assert(window@ == stage_output(*stage, orig.subrange(done_before, done_before + got)))
                by {
                assert(orig.subrange(done_before, done_before + got) =~= orig.skip(
                    done_before,
                ).take(got));
                assert(window@ =~= stage_output(*stage, raw));
            };
            assert(input_q.items_spec() == inq);
            assert(orig.skip(done_before) == raw + inq);
            assert(inq.len() == orig.len() - done_before - got);
            assert forall|j: int| 0 <= j < inq.len() implies inq[j] == orig[done_before + got
                + j] by {
                assert(inq[j] == (raw + inq)[got + j]);
                assert(orig.skip(done_before)[got + j] == orig[done_before + got + j]);
            }
            assert(input_q.items_spec() =~= orig.skip(done_before + got));
        }
        let mut j: usize = 0;
        while j < window.len()
            invariant
                output_q.wf(),
                output_q.capacity_spec() == old(output_q).capacity_spec(),
                j <= window@.len(),
                got == window@.len(),
                window@ == stage_output(*stage, orig.subrange(done_before, done_before + got)),
                0 <= done_before,
                done_before + got <= orig.len(),
                orig.len() <= output_q.capacity_spec(),
                output_q.items_spec().len() == done_before + j,
                output_q.items_spec() == stage_output(*stage, orig.take(done_before + j)),
            decreases window@.len() - j,
        {
            output_q.push(window[j]);
            proof {
                assert(orig.take(done_before + j + 1) =~= orig.take(done_before + j).push(
                    orig[done_before + j],
                ));
                assert(output_q.items_spec() =~= stage_output(*stage, orig.take(done_before + j + 1)));
            }
            j = j + 1;
        }
    }
}

/// An ordered chain of stages sharing one context. Samples put through the
/// chain come out transformed by every stage in order, one for one — the
/// engine runs the workers over bounded queues of capacity `fitting_buffer`,
/// one batch of at most a queue's capacity at a time.
#[derive(Debug)]
pub struct TransformPipeline {
    pub stages: Vec<Stage>,
    pub context: TransformContext,
}

impl TransformPipeline {
    pub fn new(stages: Vec<Stage>, context: TransformContext) -> (r: Self)
        requires
            context_wf(context),
        ensures
            r.stages@ == stages@,
            r.context == context,
    {
        TransformPipeline { stages, context }
    }

    /// Puts a stream through the chain and collects what the last stage
    /// emits.
    pub fn process(&self, input: &Vec<u32>) -> (r: Vec<u32>)
        requires
            context_wf(self.context),
        ensures
            r@ == pipeline_output(self.stages@, input@),
    {
        let capacity = self.context.fitting_buffer;
        let mut out: Vec<u32> = Vec::new();
        let mut pos: usize = 0;
        proof {
            assert(input@.take(0) =~= Seq::<u32>::empty());
            assert(pipeline_output(self.stages@, Seq::<u32>::empty()).len() == 0) by {
                lemma_pipeline_len(self.stages@, Seq::<u32>::empty());
            };
            assert(out@ =~= pipeline_output(self.stages@, input@.take(0)));
        }
        while pos < input.len()
            invariant
                context_wf(self.context),
                capacity == self.context.fitting_buffer,
                pos <= input@.len(),
                out@ == pipeline_output(self.stages@, input@.take(pos as int)),
            decreases input@.len() - pos,
        {
            let batch_len = if input.len() - pos < capacity {
                input.len() - pos
            } else {
                capacity
            };
            let ghost batch = input@.subrange(pos as int, pos + batch_len);
            let mut current = BoundedQueue::new(capacity);
            let mut k: usize = 0;
            while k < batch_len
                invariant
                    k <= batch_len,
                    pos + batch_len <= input@.len(),
                    input@.len() <= usize::MAX,
                    batch_len <= capacity,
                    batch == input@.subrange(pos as int, pos + batch_len),
                    current.wf(),
                    current.capacity_spec() == capacity,
                    current.items_spec() == batch.take(k as int),
                decreases batch_len - k,
            {
                current.push(input[pos + k]);
                proof {
                    assert(current.items_spec() =~= batch.take(k as int + 1));
                }
                k = k + 1;
            }
            proof {
                assert(batch.take(batch_len as int) =~= batch);
            }
            let mut i: usize = 0;
            while i < self.stages.len()
                invariant
                    context_wf(self.context),
                    capacity == self.context.fitting_buffer,
                    i <= self.stages@.len(),
                    current.wf(),
                    current.capacity_spec() == capacity,
                    current.items_spec() == pipeline_output(
                        self.stages@.take(i as int),
                        batch,
                    ),
                    batch.len() <= capacity,
                decreases self.stages@.len() - i,
            {
                let mut next = BoundedQueue::new(capacity);
                proof {
                    lemma_pipeline_len(self.stages@.take(i as int), batch);
                }
                run_stage(&self.stages[i], &self.context, &mut current, &mut next);
                proof {
                    lemma_pipeline_take_step(self.stages@, batch, i as int);
                }
                current = next;
                i = i + 1;
            }
            proof {
                assert(self.stages@.take(self.stages@.len() as int) =~= self.stages@);
                lemma_pipeline_len(self.stages@, batch);
            }
            let mut drained: usize = 0;
            let total = current.len();
            while drained < total
                invariant
                    current.wf(),
                    total == current.items_spec().len() + drained,
                    out@ + current.items_spec() == pipeline_output(
                        self.stages@,
                        input@.take(pos as int),
                    ) + pipeline_output(self.stages@, batch),
                decreases total - drained,
            {
                match current.pop_front() {
                    Some(s) => {
                        out.push(s);
                        proof {
                            assert(out@ + current.items_spec() =~= pipeline_output(
                                self.stages@,
                                input@.take(pos as int),
                            ) + pipeline_output(self.stages@, batch));
                        }
                    },
                    None => {
                        proof {
                            assert(false);
                        }
                    },
                }
                drained = drained + 1;
            }
            proof {
                lemma_pipeline_concat(self.stages@, input@.take(pos as int), batch);
                assert(input@.take(pos as int) + batch =~= input@.take(pos + batch_len));
                assert(out@ =~= pipeline_output(self.stages@, input@.take(pos + batch_len)));
            }
            pos = pos + batch_len;
        }
        proof {
            assert(input@.take(input@.len() as int) =~= input@);
        }
        out
    }
}

/// Running one more stage over a batch extends the chain by that stage.
proof fn lemma_pipeline_take_step(stages: Seq<Stage>, input: Seq<u32>, i: int)
    requires
        0 <= i < stages.len(),
    ensures
        stage_output(stages[i], pipeline_output(stages.take(i), input)) == pipeline_output(
            stages.take(i + 1),
            input,
        ),
    decreases i,
{
    if i == 0 {
        assert(stages.take(0) =~= Seq::<Stage>::empty());
        assert(pipeline_output(stages.take(0), input) == input);
        assert(stages.take(1) =~= seq![stages[0]]);
        assert(stages.take(1).skip(1) =~= Seq::<Stage>::empty());
        lemma_pipeline_take_front(stages.take(1), input);
        assert(stages.take(1)[0] == stages[0]);
        assert(pipeline_output(Seq::<Stage>::empty(), stage_output(stages[0], input))
            == stage_output(stages[0], input));
    } else {
        lemma_pipeline_take_front(stages.take(i), input);
        lemma_pipeline_take_front(stages.take(i + 1), input);
        assert(stages.take(i)[0] == stages[0]);
        assert(stages.take(i + 1)[0] == stages[0]);
        assert(stages.take(i).skip(1) =~= stages.skip(1).take(i - 1));
        assert(stages.take(i + 1).skip(1) =~= stages.skip(1).take(i));
        lemma_pipeline_take_step(stages.skip(1), stage_output(stages[0], input), i - 1);
        assert(stages.skip(1)[i - 1] == stages[i]);
    }
}

/// Unfolds one pipeline step from the front of a non-empty chain.
proof fn lemma_pipeline_take_front(stages: Seq<Stage>, input: Seq<u32>)
    requires
        stages.len() > 0,
    ensures
        pipeline_output(stages, input) == pipeline_output(
            stages.skip(1),
            stage_output(stages[0], input),
        ),
{
}

/// The library behind a running deployment: the original composition point
/// that request handlers go through.
pub struct AudioPipeline {
    pub library: AudioLibrary,
}

impl AudioPipeline {
    pub fn new(library: AudioLibrary) -> (r: Self)
        ensures
            r.library == library,
    {
        AudioPipeline { library }
    }

    /// One-time preparation: the library arrives from its builder already
    /// initialized, so nothing is left to do here.
    pub fn init(&mut self) -> (r: Result<(), String>)
        ensures
            r is Ok,
            *final(self) == *old(self),
    {
        Ok(())
    }
}

} // verus!

