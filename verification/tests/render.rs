use ui::commands::{first_texture, glyph_index, texture_runs, SubmissionQueue};
use ui::debug_damage::{DebugDamage, PALETTE_LEN};
use ui::shell::layer_configure_size;

#[test]
fn texture_runs_group_consecutive_equal_ids() {
    let ids = vec![Some(1), Some(1), None, None, Some(2), Some(1), Some(1), Some(1)];
    assert_eq!(texture_runs(&ids), vec![(0, 2), (2, 4), (4, 5), (5, 8)]);
    assert_eq!(texture_runs(&vec![]), vec![]);
    assert_eq!(texture_runs(&vec![Some(3)]), vec![(0, 1)]);
}

#[test]
fn glyph_index_covers_printable_ascii_only() {
    assert_eq!(glyph_index(' '), Some(0));
    assert_eq!(glyph_index('A'), Some(33));
    assert_eq!(glyph_index('~'), Some(94));
    assert_eq!(glyph_index('\n'), None);
    assert_eq!(glyph_index('\u{7f}'), None);
    assert_eq!(glyph_index('é'), None);
}

#[test]
fn debug_damage_cycles_its_tint() {
    let mut d = DebugDamage::new(5u8);
    assert_eq!(*d.inner(), 5);
    let tints: Vec<usize> = (0..8).map(|_| d.next_tint()).collect();
    assert_eq!(tints, vec![0, 1, 2, 3, 4, 5, 0, 1]);
    assert_eq!(PALETTE_LEN, 6);
    *d.inner_mut() = 9;
    assert_eq!(*d.inner(), 9);
    assert_eq!(d.next_tint(), 2);
}

#[test]
fn layer_configure_falls_back_to_the_stored_size() {
    assert_eq!(layer_configure_size(0, 0, Some((800, 600))), (800, 600));
    assert_eq!(layer_configure_size(1024, 0, Some((800, 600))), (1024, 600));
    assert_eq!(layer_configure_size(0, 30, None), (0, 30));
    assert_eq!(layer_configure_size(640, 480, Some((1, 1))), (640, 480));
}

#[test]
fn first_texture_skips_untextured_primitives() {
    assert_eq!(first_texture(&vec![None, None, Some(4), Some(2)]), Some(4));
    assert_eq!(first_texture(&vec![Some(9)]), Some(9));
    assert_eq!(first_texture(&vec![None, None]), None);
    assert_eq!(first_texture(&vec![]), None);
}

#[test]
fn submission_queue_stamps_in_order_and_restarts() {
    let mut q = SubmissionQueue::new();
    q.push("a");
    q.push("b");
    q.push("c");
    assert_eq!(q.len(), 3);
    assert_eq!(q.take_all(), vec![(0, "a"), (1, "b"), (2, "c")]);
    assert_eq!(q.len(), 0);
    q.push("d");
    assert_eq!(q.take_all(), vec![(0, "d")]);
}
