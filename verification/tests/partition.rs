use dagr_game::bsp::{BspContent, BspNode};
use dagr_game::error::GenerationError;
use dagr_game::random::RandomSource;
use dagr_game::rect::Rect;

fn leaves(node: &BspNode, out: &mut Vec<(Rect, Option<Rect>)>) {
    match &node.content {
        BspContent::Leaf { room } => out.push((node.rect, *room)),
        BspContent::Split { left, right } => {
            leaves(left, out);
            leaves(right, out);
        }
    }
}

fn internal_nodes(node: &BspNode) -> usize {
    match &node.content {
        BspContent::Leaf { .. } => 0,
        BspContent::Split { left, right } => 1 + internal_nodes(left) + internal_nodes(right),
    }
}

fn max_depth_of(node: &BspNode) -> i32 {
    match &node.content {
        BspContent::Leaf { .. } => node.depth,
        BspContent::Split { left, right } => max_depth_of(left).max(max_depth_of(right)),
    }
}

fn tree(seed: u64, w: i32, h: i32, min: i32, depth: i32) -> (BspNode, RandomSource) {
    let mut rng = RandomSource::new(seed);
    let mut root = BspNode::new(Rect::new(0, 0, w, h));
    assert_eq!(root.split(&mut rng, min, depth, 0), Ok(()));
    (root, rng)
}

#[test]
fn leaves_tile_the_root() {
    for seed in 0..20u64 {
        let (root, _) = tree(seed, 45, 45, 5, 4);
        let mut found = Vec::new();
        leaves(&root, &mut found);
        let rects: Vec<Rect> = found.iter().map(|(r, _)| *r).collect();
        assert_eq!(root.get_leaf_rects(), rects);
        let total: i64 = found.iter().map(|(r, _)| r.w as i64 * r.h as i64).sum();
        assert_eq!(total, 45 * 45);
        let mut seen = vec![0u8; 45 * 45];
        for (r, _) in &found {
            for y in r.y..r.y + r.h {
                for x in r.x..r.x + r.w {
                    seen[(y * 45 + x) as usize] += 1;
                }
            }
        }
        assert!(seen.iter().all(|&n| n == 1));
    }
}

#[test]
fn leaves_stay_large_enough_and_depth_is_bounded() {
    for seed in 0..20u64 {
        let (root, _) = tree(seed, 60, 40, 5, 3);
        let mut found = Vec::new();
        leaves(&root, &mut found);
        assert!(found.iter().all(|(r, _)| r.w >= 7 && r.h >= 7));
        assert!(max_depth_of(&root) <= 3);
        assert!(found.len() <= 8);
        assert!(found.len() >= 2);
    }
}

#[test]
fn depth_limit_zero_gives_one_leaf() {
    let (root, rng) = tree(3, 45, 45, 5, 0);
    let mut found = Vec::new();
    leaves(&root, &mut found);
    assert_eq!(found, vec![(Rect::new(0, 0, 45, 45), None)]);
    let mut fresh = RandomSource::new(3);
    let mut used = rng;
    assert_eq!(used.word(), fresh.word());
}

#[test]
fn a_rectangle_too_small_to_cut_stays_a_leaf() {
    let (root, _) = tree(3, 13, 13, 5, 4);
    assert_eq!(internal_nodes(&root), 0);
    let (root, _) = tree(3, 14, 13, 5, 4);
    assert_eq!(internal_nodes(&root), 1);
    let mut found = Vec::new();
    leaves(&root, &mut found);
    assert_eq!(found[0].0, Rect::new(0, 0, 7, 13));
    assert_eq!(found[1].0, Rect::new(7, 0, 7, 13));
}

#[test]
fn split_refuses_degenerate_input() {
    let mut rng = RandomSource::new(1);
    let mut node = BspNode::new(Rect::new(0, 0, 0, 10));
    assert_eq!(node.split(&mut rng, 5, 4, 0), Err(GenerationError::InvalidDimensions));
    let mut node = BspNode::new(Rect::new(0, 0, 10, -1));
    assert_eq!(node.split(&mut rng, 5, 4, 0), Err(GenerationError::InvalidDimensions));
    let mut node = BspNode::new(Rect::new(i32::MAX, 0, 10, 10));
    assert_eq!(node.split(&mut rng, 5, 4, 0), Err(GenerationError::InvalidDimensions));
    let mut node = BspNode::new(Rect::new(0, 0, 40, 40));
    assert_eq!(node.split(&mut rng, 0, 4, 0), Err(GenerationError::InvalidParameters));
    assert_eq!(node.split(&mut rng, 5, -1, 0), Err(GenerationError::InvalidParameters));
    assert_eq!(node.split(&mut rng, 5, 4, -1), Err(GenerationError::InvalidParameters));
    let mut fresh = RandomSource::new(1);
    assert_eq!(rng.word(), fresh.word());
}

#[test]
fn rooms_keep_their_margin() {
    for seed in 0..20u64 {
        let (mut root, mut rng) = tree(seed, 45, 45, 5, 4);
        assert_eq!(root.create_rooms(&mut rng), Ok(()));
        let mut found = Vec::new();
        leaves(&root, &mut found);
        for (leaf, room) in &found {
            let room = room.expect("every leaf has a room");
            assert!(room.w >= 5 && room.h >= 5);
            assert!(room.x >= leaf.x + 1 && room.y >= leaf.y + 1);
            assert!(room.x + room.w <= leaf.x + leaf.w - 1);
            assert!(room.y + room.h <= leaf.y + leaf.h - 1);
        }
        let rooms: Vec<Rect> = found.iter().map(|(_, room)| room.unwrap()).collect();
        assert_eq!(root.get_leaf_rooms(), rooms);
        assert_eq!(root.get_room(), Some(rooms[0]));
    }
}

#[test]
fn rooms_are_refused_where_a_leaf_is_too_small() {
    let mut rng = RandomSource::new(1);
    let mut node = BspNode::new(Rect::new(0, 0, 2, 10));
    assert!(!node.has_room_for_rooms());
    assert_eq!(node.create_rooms(&mut rng), Err(GenerationError::InvalidParameters));
    assert_eq!(node.get_leaf_rooms(), Vec::<Rect>::new());
    assert_eq!(node.get_room(), None);
    let mut node = BspNode::new(Rect::new(0, 0, 3, 3));
    assert_eq!(node.create_rooms(&mut rng), Ok(()));
    assert_eq!(node.get_leaf_rooms(), vec![Rect::new(1, 1, 1, 1)]);
}

#[test]
fn a_tree_without_rooms_has_no_passages() {
    let (root, _) = tree(5, 45, 45, 5, 4);
    let mut passages = Vec::new();
    root.create_passages(&mut passages);
    assert!(passages.is_empty());
    assert_eq!(root.get_room(), None);
}

#[test]
fn passages_join_the_rooms_that_stand_for_the_parts() {
    for seed in 0..20u64 {
        let (mut root, mut rng) = tree(seed, 45, 45, 5, 4);
        assert_eq!(root.create_rooms(&mut rng), Ok(()));
        let mut passages = vec![Rect::new(-1, -1, 1, 1)];
        root.create_passages(&mut passages);
        assert_eq!(passages[0], Rect::new(-1, -1, 1, 1));
        assert_eq!(passages.len(), 1 + 2 * internal_nodes(&root));
        for pair in passages[1..].chunks(2) {
            assert_eq!(pair[0].h, 1);
            assert_eq!(pair[1].w, 1);
            assert!(pair[0].w >= 1 && pair[1].h >= 1);
        }
        if let BspContent::Split { left, right } = &root.content {
            let a = left.get_room().unwrap().center();
            let b = right.get_room().unwrap().center();
            let along = passages[passages.len() - 2];
            let down = passages[passages.len() - 1];
            assert_eq!(along, Rect::new(a.0.min(b.0), a.1, (a.0 - b.0).abs() + 1, 1));
            assert_eq!(down, Rect::new(b.0, a.1.min(b.1), 1, (a.1 - b.1).abs() + 1));
            assert!(along.contains(a.0, a.1) && along.contains(b.0, a.1));
            assert!(down.contains(b.0, a.1) && down.contains(b.0, b.1));
        } else {
            panic!("a 45 by 45 area with rooms of 5 is cut at least once");
        }
    }
}

#[test]
fn the_same_seed_gives_the_same_tree() {
    let (mut a, mut rng_a) = tree(99, 80, 50, 4, 6);
    let (mut b, mut rng_b) = tree(99, 80, 50, 4, 6);
    a.create_rooms(&mut rng_a).unwrap();
    b.create_rooms(&mut rng_b).unwrap();
    assert_eq!(a.get_leaf_rooms(), b.get_leaf_rooms());
    let mut pa = Vec::new();
    let mut pb = Vec::new();
    a.create_passages(&mut pa);
    b.create_passages(&mut pb);
    assert_eq!(pa, pb);
    let (mut c, mut rng_c) = tree(100, 80, 50, 4, 6);
    c.create_rooms(&mut rng_c).unwrap();
    assert_ne!(a.get_leaf_rooms(), c.get_leaf_rooms());
}
