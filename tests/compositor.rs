use vkwh::compositor::{Command, ImageRef, LayerCache, LayerCompositor, LayerObject, Layout, Mode, Teardown};
use vkwh::Pixel;

/// Counts the draw calls that each layer would receive when the plan is run.
fn render_calls(cmds: &[Command], layers: usize) -> Vec<usize> {
    let mut calls = vec![0; layers];
    for c in cmds {
        if let Command::Render { layer, .. } = c {
            calls[*layer] += 1;
        }
    }
    calls
}

fn target_barriers(cmds: &[Command]) -> usize {
    cmds.iter()
        .filter(|c| matches!(c, Command::Barrier { image: ImageRef::Target, .. }))
        .count()
}

/// The commands after the re-render pass and the clear of the target.
fn merge_part(cmds: &[Command]) -> &[Command] {
    let clear = cmds.iter().position(|c| *c == Command::ClearTarget).unwrap();
    &cmds[clear + 2..]
}

fn visited(cmds: &[Command]) -> Vec<usize> {
    cmds.iter()
        .filter_map(|c| match c {
            Command::Render { layer, .. } => Some(*layer),
            Command::CopyToTarget { layer } => Some(*layer),
            _ => None,
        })
        .collect()
}

const ENTER: Command = Command::Barrier { image: ImageRef::Target, from: Layout::PresentSrc, to: Layout::TransferDst };
const LEAVE: Command = Command::Barrier { image: ImageRef::Target, from: Layout::TransferDst, to: Layout::PresentSrc };

fn cache_read(i: usize) -> Command {
    Command::Barrier { image: ImageRef::Cache(i), from: Layout::PresentSrc, to: Layout::TransferSrc }
}

fn clear_part() -> Vec<Command> {
    vec![
        Command::Barrier { image: ImageRef::Target, from: Layout::Undefined, to: Layout::TransferDst },
        Command::ClearTarget,
        LEAVE,
    ]
}

#[test]
fn cached_clear_under_live_shape() {
    let mut c = LayerCompositor::new();
    assert_eq!(c.new_cached_layer("clear", 11, 12), 0);
    assert_eq!(c.new_layer("shape"), 1);
    c.update_all();
    let cmds = c.render(2);
    assert_eq!(render_calls(&cmds, 2), vec![1, 1]);
    let mut expected = vec![Command::Render { layer: 0, slot: 0 }];
    expected.extend(clear_part());
    expected.extend(vec![
        ENTER,
        cache_read(0),
        Command::CopyToTarget { layer: 0 },
        LEAVE,
        Command::Render { layer: 1, slot: 2 },
    ]);
    assert_eq!(cmds, expected);
    // one pair of boundary transitions, around the run of copies
    assert_eq!(target_barriers(merge_part(&cmds)), 2);
    assert_eq!(c.cache(0), Some(LayerCache { image: 11, memory: 12, damage: false }));
}

#[test]
fn two_cached_one_marked() {
    let mut c = LayerCompositor::new();
    assert_eq!(c.new_cached_layer("a", 1, 2), 0);
    assert_eq!(c.new_cached_layer("b", 3, 4), 1);
    // the first frame renders both fresh caches
    let first = c.render(0);
    assert_eq!(render_calls(&first, 2), vec![1, 1]);
    c.mark_update(0);
    let cmds = c.render(1);
    assert_eq!(render_calls(&cmds, 2), vec![1, 0]);
    let mut expected = vec![Command::Render { layer: 0, slot: 0 }];
    expected.extend(clear_part());
    expected.extend(vec![
        ENTER,
        cache_read(0),
        Command::CopyToTarget { layer: 0 },
        cache_read(1),
        Command::CopyToTarget { layer: 1 },
        LEAVE,
    ]);
    assert_eq!(cmds, expected);
}

#[test]
fn rendering_twice_rerenders_cache_once() {
    let mut c = LayerCompositor::new();
    c.new_cached_layer(7u32, 1, 2);
    c.new_layer(8u32);
    let first = c.render(0);
    let second = c.render(1);
    assert_eq!(render_calls(&first, 2), vec![1, 1]);
    assert_eq!(render_calls(&second, 2), vec![0, 1]);
    let third = c.render(1);
    assert_eq!(second, third);
}

#[test]
fn merge_transitions_follow_copy_runs() {
    // modes Copy Copy Direct Direct Copy Direct Copy: three runs of copies
    let mut c = LayerCompositor::new();
    c.new_cached_layer(0u8, 1, 1);
    c.new_cached_layer(1u8, 2, 2);
    c.new_layer(2u8);
    c.new_layer(3u8);
    c.new_cached_layer(4u8, 3, 3);
    c.new_layer(5u8);
    c.new_cached_layer(6u8, 4, 4);
    let cmds = c.render(0);
    let merge = merge_part(&cmds);
    assert_eq!(target_barriers(merge), 6);
    assert_eq!(merge.first(), Some(&ENTER));
    assert_eq!(merge.last(), Some(&LEAVE));
}

#[test]
fn merge_of_copies_only_uses_one_pair() {
    let mut c = LayerCompositor::new();
    for i in 0..5u64 {
        c.new_cached_layer(i, i, i);
    }
    let cmds = c.render(0);
    assert_eq!(target_barriers(merge_part(&cmds)), 2);
}

#[test]
fn merge_of_live_layers_uses_no_transition() {
    let mut c = LayerCompositor::new();
    for i in 0..4u64 {
        c.new_layer(i);
    }
    let cmds = c.render(3);
    assert_eq!(target_barriers(merge_part(&cmds)), 0);
    assert_eq!(render_calls(&cmds, 4), vec![1, 1, 1, 1]);
}

#[test]
fn update_all_then_render_draws_each_layer_once() {
    let mut c = LayerCompositor::new();
    c.new_layer('a');
    c.new_cached_layer('b', 5, 6);
    c.new_cached_layer('c', 7, 8);
    c.render(0);
    c.update_all();
    assert!(c.cache(1).unwrap().damage && c.cache(2).unwrap().damage);
    let cmds = c.render(1);
    assert_eq!(render_calls(&cmds, 3), vec![1, 1, 1]);
    assert!(!c.cache(1).unwrap().damage && !c.cache(2).unwrap().damage);
    assert_eq!(c.cache(0), None);
}

#[test]
fn merge_keeps_registration_order() {
    let mut c = LayerCompositor::new();
    c.new_layer("l1");
    c.new_cached_layer("l2", 1, 1);
    c.new_layer("l3");
    let cmds = c.render(0);
    assert_eq!(visited(merge_part(&cmds)), vec![0, 1, 2]);
    assert_eq!(*c.layer(0), "l1");
    assert_eq!(*c.layer(1), "l2");
    assert_eq!(*c.layer(2), "l3");
}

#[test]
fn mark_update_on_live_layer_changes_nothing() {
    let mut c = LayerCompositor::new();
    c.new_layer(1u8);
    c.new_cached_layer(2u8, 9, 9);
    c.render(0);
    c.mark_update(0);
    assert_eq!(c.cache(0), None);
    assert_eq!(c.cache(1), Some(LayerCache { image: 9, memory: 9, damage: false }));
    c.mark_update(1);
    assert_eq!(c.cache(1), Some(LayerCache { image: 9, memory: 9, damage: true }));
}

#[test]
fn empty_compositor_only_clears() {
    let mut c: LayerCompositor<u8> = LayerCompositor::new();
    assert_eq!(c.len(), 0);
    assert_eq!(c.render(0), clear_part());
    assert_eq!(c.release(), vec![Teardown::WaitIdle]);
}

#[test]
fn release_drains_before_destroying() {
    let mut c = LayerCompositor::new();
    c.new_cached_layer(0u8, 100, 200);
    c.new_layer(1u8);
    c.new_cached_layer(2u8, 101, 201);
    assert_eq!(
        c.release(),
        vec![
            Teardown::WaitIdle,
            Teardown::DestroyImage(100),
            Teardown::FreeMemory(200),
            Teardown::DestroyImage(101),
            Teardown::FreeMemory(201),
        ]
    );
}

#[test]
fn layer_object_lifecycle() {
    let live = LayerObject::new("x");
    assert_eq!(live.mode(), Mode::Direct);
    assert_eq!(live.release(), vec![Teardown::WaitIdle]);
    let cached = LayerObject::new("y").build_cache(5, 6);
    assert_eq!(cached.mode(), Mode::Copy);
    assert_eq!(cached.cache, Some(LayerCache { image: 5, memory: 6, damage: true }));
    assert_eq!(
        cached.release(),
        vec![Teardown::WaitIdle, Teardown::DestroyImage(5), Teardown::FreeMemory(6)]
    );
}

#[test]
fn pixel_default_is_transparent_black() {
    let p = Pixel::default();
    assert_eq!(p, Pixel { r: 0, g: 0, b: 0, a: 0 });
}
