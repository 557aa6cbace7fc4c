use audio_server::{
    BoundedQueue, FilterKind, Stage, TransformContext, TransformPipeline,
};

fn ctx(window_size: usize, fitting_buffer: usize) -> TransformContext {
    TransformContext { window_size, fitting_buffer }
}

#[test]
fn bounded_queue_is_fifo_within_its_capacity() {
    let mut q = BoundedQueue::new(2);
    assert!(q.is_empty());
    assert_eq!(q.capacity(), 2);
    q.push(10);
    q.push(20);
    assert!(q.is_full());
    assert_eq!(q.len(), 2);
    assert_eq!(q.pop_front(), Some(10));
    q.push(30);
    assert_eq!(q.pop_front(), Some(20));
    assert_eq!(q.pop_front(), Some(30));
    assert_eq!(q.pop_front(), None);
}

#[test]
fn identity_pipeline_returns_input_exactly() {
    let input: Vec<u32> = (0..1000).collect();
    for window_size in [1usize, 3, 64, 5000] {
        let pipeline =
            TransformPipeline::new(vec![Stage::Filter(FilterKind::Identity)], ctx(window_size, 16));
        assert_eq!(pipeline.process(&input), input);
    }
}

#[test]
fn empty_chain_and_empty_input_pass_through() {
    let pipeline = TransformPipeline::new(Vec::new(), ctx(4, 4));
    assert_eq!(pipeline.process(&vec![1, 2, 3]), vec![1, 2, 3]);
    let single = TransformPipeline::new(vec![Stage::Pipe], ctx(4, 4));
    assert_eq!(single.process(&Vec::new()), Vec::<u32>::new());
}

#[test]
fn silence_filter_zeroes_every_sample() {
    let pipeline = TransformPipeline::new(vec![Stage::Filter(FilterKind::Silence)], ctx(8, 4));
    assert_eq!(pipeline.process(&vec![5, 6, 7]), vec![0, 0, 0]);
}

#[test]
fn stages_compose_in_order_and_pipes_forward() {
    let pipeline = TransformPipeline::new(
        vec![Stage::Pipe, Stage::Filter(FilterKind::Identity), Stage::Pipe],
        ctx(3, 2),
    );
    let input: Vec<u32> = (0..37).collect();
    assert_eq!(pipeline.process(&input), input);
    let silenced = TransformPipeline::new(
        vec![Stage::Filter(FilterKind::Identity), Stage::Filter(FilterKind::Silence)],
        ctx(3, 2),
    );
    assert_eq!(silenced.process(&vec![1, 2, 3, 4, 5]), vec![0, 0, 0, 0, 0]);
}

#[test]
fn tight_capacity_preserves_order_and_count() {
    // capacity one between stages: the strongest backpressure there is
    let pipeline = TransformPipeline::new(
        vec![Stage::Filter(FilterKind::Identity), Stage::Pipe],
        ctx(7, 1),
    );
    let input: Vec<u32> = (0..25).map(|i| i * 3).collect();
    assert_eq!(pipeline.process(&input), input);
}
