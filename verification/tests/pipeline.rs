use blur_regions::graph::prepare_blur_regions_pipelines;
use blur_regions::graph::BlurRegionsPassKey;
use blur_regions::graph::BlurRegionsPipelineKey;
use blur_regions::graph::BlurRegionsPipelines;
use blur_regions::graph::StageGraph;
use blur_regions::graph::ViewInfo;

const SCENE_PASS: u64 = 10;
const BLOOM: u64 = 20;
const BLUR_NODE: u64 = 50;
const TONEMAPPING: u64 = 30;
const OUTPUT: u64 = 40;

fn base_graph() -> StageGraph {
    let mut graph = StageGraph::new();
    assert!(graph.push_stage(SCENE_PASS));
    assert!(graph.push_stage(BLOOM));
    assert!(graph.push_stage(TONEMAPPING));
    assert!(graph.push_stage(OUTPUT));
    graph
}

#[test]
fn node_is_inserted_between_its_anchors() {
    let mut graph = base_graph();
    assert!(graph.insert_between(BLOOM, TONEMAPPING, BLUR_NODE));
    assert_eq!(graph.len(), 5);
    assert_eq!(graph.stage_at(0), SCENE_PASS);
    assert_eq!(graph.stage_at(1), BLOOM);
    assert_eq!(graph.stage_at(2), BLUR_NODE);
    assert_eq!(graph.stage_at(3), TONEMAPPING);
    assert_eq!(graph.stage_at(4), OUTPUT);
}

#[test]
fn insertion_fails_when_an_anchor_is_missing() {
    let mut graph = base_graph();
    assert!(!graph.insert_between(99, TONEMAPPING, BLUR_NODE));
    assert_eq!(graph.len(), 4);
}

#[test]
fn insertion_fails_when_anchors_are_out_of_order() {
    let mut graph = base_graph();
    assert!(!graph.insert_between(TONEMAPPING, BLOOM, BLUR_NODE));
    assert_eq!(graph.len(), 4);
}

#[test]
fn insertion_fails_when_the_label_is_already_present() {
    let mut graph = base_graph();
    assert!(graph.insert_between(BLOOM, TONEMAPPING, BLUR_NODE));
    assert!(!graph.insert_between(SCENE_PASS, OUTPUT, BLUR_NODE));
    assert_eq!(graph.len(), 5);
}

#[test]
fn duplicate_stage_is_refused() {
    let mut graph = base_graph();
    assert!(!graph.push_stage(BLOOM));
    assert_eq!(graph.len(), 4);
}

#[test]
fn pipeline_variants_are_created_once_per_key() {
    let mut pipelines = BlurRegionsPipelines::new();
    let key = BlurRegionsPipelineKey { pass: BlurRegionsPassKey::Horizontal, hdr: false };
    let first = pipelines.specialize(key);
    let again = pipelines.specialize(key);
    assert_eq!(first, again);
    let other = pipelines.specialize(BlurRegionsPipelineKey {
        pass: BlurRegionsPassKey::Vertical,
        hdr: false,
    });
    assert_ne!(first, other);
}

#[test]
fn each_view_gets_two_passes_keyed_by_its_format() {
    let mut pipelines = BlurRegionsPipelines::new();
    let views = vec![
        ViewInfo { id: 1, hdr: false },
        ViewInfo { id: 2, hdr: true },
        ViewInfo { id: 3, hdr: false },
    ];
    let passes = prepare_blur_regions_pipelines(&mut pipelines, &views);
    assert_eq!(passes.len(), 3);
    for (view, built) in views.iter().zip(passes.iter()) {
        assert_eq!(built.horizontal.key.pass, BlurRegionsPassKey::Horizontal);
        assert_eq!(built.vertical.key.pass, BlurRegionsPassKey::Vertical);
        assert_eq!(built.horizontal.key.hdr, view.hdr);
        assert_eq!(built.vertical.key.hdr, view.hdr);
    }
    // Views with the same output format share cached pipelines.
    assert_eq!(passes[0].horizontal.pipeline, passes[2].horizontal.pipeline);
    assert_eq!(passes[0].vertical.pipeline, passes[2].vertical.pipeline);
    // A different format gets its own variants.
    assert_ne!(passes[0].horizontal.pipeline, passes[1].horizontal.pipeline);
}
